use vstd::prelude::*;
use crate::text::{decimal, u64_text, views};

verus! {

/// What `get` shows for an absent key.
pub open spec fn nil_marker() -> Seq<char> {
    "<nil>"@
}

/// What `get` shows: the value, or the absent marker.
pub fn show_value(value: Option<String>) -> (r: String)
    ensures
        r@ == match value {
            Some(v) => v@,
            None => nil_marker(),
        },
{
    match value {
        Some(v) => v,
        None => String::from_str("<nil>"),
    }
}

/// What `list` shows: one line per key, or the empty marker where there is none.
pub fn show_keys(keys: Vec<String>) -> (r: Vec<String>)
    ensures
        keys@.len() == 0 ==> views(r@) == seq![crate::tree::empty_marker()],
        keys@.len() > 0 ==> views(r@) == views(keys@),
{
    if keys.len() == 0 {
        let mut out: Vec<String> = Vec::new();
        out.push(String::from_str("<empty>"));
        assert(views(out@) =~= seq![crate::tree::empty_marker()]);
        out
    } else {
        keys
    }
}

/// `s` with each `/` replaced by `_`.
pub open spec fn flatten_slashes(s: Seq<char>) -> Seq<char> {
    Seq::new(s.len(), |i: int| if s[i] == '/' { '_' } else { s[i] })
}

/// The name of the file in which `edit` hands a key's value to the editor:
/// `consulx-{key, with _ for /}-{seconds}.tmp`.
pub open spec fn edit_file_name_spec(key: Seq<char>, seconds: u64) -> Seq<char> {
    "consulx-"@ + flatten_slashes(key) + "-"@ + decimal(seconds as nat) + ".tmp"@
}

/// Names the file in which `edit` hands a key's value to the editor.
pub fn edit_file_name(key: &str, seconds: u64) -> (r: String)
    ensures
        r@ == edit_file_name_spec(key@, seconds),
{
    let mut out = String::from_str("consulx-");
    let n = key.unicode_len();
    let mut i: usize = 0;
    while i < n
        invariant
            i <= n,
            n == key@.len(),
            out@ == "consulx-"@ + flatten_slashes(key@.subrange(0, i as int)),
        decreases n - i,
    {
        if key.get_char(i) == '/' {
            out.append("_");
        } else {
            out.append(key.substring_char(i, i + 1));
        }
        proof {
            reveal_strlit("_");
        }
        assert(flatten_slashes(key@.subrange(0, i + 1)) =~= flatten_slashes(
            key@.subrange(0, i as int),
        ).push(if key@[i as int] == '/' { '_' } else { key@[i as int] }));
        i = i + 1;
    }
    assert(key@.subrange(0, n as int) =~= key@);
    out.append("-");
    let digits = u64_text(seconds);
    out.append(digits.as_str());
    out.append(".tmp");
    out
}

/// The editor used where none is configured.
pub const DEFAULT_EDITOR: &'static str = "nano";

/// The editor to launch: the configured one, or the default.
pub fn editor_choice(configured: Option<String>) -> (r: String)
    ensures
        r@ == match configured {
            Some(e) => e@,
            None => DEFAULT_EDITOR@,
        },
{
    match configured {
        Some(e) => e,
        None => String::from_str(DEFAULT_EDITOR),
    }
}

} // verus!

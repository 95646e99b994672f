use vstd::prelude::*;
use crate::errors::{ConsulXError, ErrorView};
use crate::text::{is_space, join_spaces, join_words_from, lower_of, same_text, split_words, to_lower, views, words};

verus! {

/// One line of input, understood.
#[derive(Debug)]
pub enum Command {
    Get { key: String },
    Put { key: String, value: String },
    Delete { key: String },
    List { prefix: String },
    Watch { key: String },
    WatchPrefix { prefix: String },
    Tree { prefix: String },
    GetJson { key: String },
    PutJson { key: String, json: String },
    Edit { key: String },
    Help,
    Empty,
}

/// The model of a command, with the characters of each argument.
pub enum CommandView {
    Get { key: Seq<char> },
    Put { key: Seq<char>, value: Seq<char> },
    Delete { key: Seq<char> },
    List { prefix: Seq<char> },
    Watch { key: Seq<char> },
    WatchPrefix { prefix: Seq<char> },
    Tree { prefix: Seq<char> },
    GetJson { key: Seq<char> },
    PutJson { key: Seq<char>, json: Seq<char> },
    Edit { key: Seq<char> },
    Help,
    Empty,
}

impl View for Command {
    type V = CommandView;

    open spec fn view(&self) -> CommandView {
        match self {
            Command::Get { key } => CommandView::Get { key: key@ },
            Command::Put { key, value } => CommandView::Put { key: key@, value: value@ },
            Command::Delete { key } => CommandView::Delete { key: key@ },
            Command::List { prefix } => CommandView::List { prefix: prefix@ },
            Command::Watch { key } => CommandView::Watch { key: key@ },
            Command::WatchPrefix { prefix } => CommandView::WatchPrefix { prefix: prefix@ },
            Command::Tree { prefix } => CommandView::Tree { prefix: prefix@ },
            Command::GetJson { key } => CommandView::GetJson { key: key@ },
            Command::PutJson { key, json } => CommandView::PutJson { key: key@, json: json@ },
            Command::Edit { key } => CommandView::Edit { key: key@ },
            Command::Help => CommandView::Help,
            Command::Empty => CommandView::Empty,
        }
    }
}

/// The model of a parse result.
pub open spec fn parsed_view(r: Result<Command, ConsulXError>) -> Result<CommandView, ErrorView> {
    match r {
        Ok(c) => Ok(c@),
        Err(e) => Err(e@),
    }
}

/// The verbs whose single argument is a key that must be present.
pub open spec fn is_key_verb(verb: Seq<char>) -> bool {
    verb == "get"@ || verb == "del"@ || verb == "delete"@ || verb == "watch"@ || verb == "edit"@
        || verb == "get-json"@
}

/// The verbs whose single argument is an optional prefix.
pub open spec fn is_prefix_verb(verb: Seq<char>) -> bool {
    verb == "list"@ || verb == "tree"@ || verb == "watch-prefix"@
}

/// Every verb that the parser knows.
pub open spec fn is_known_verb(verb: Seq<char>) -> bool {
    is_key_verb(verb) || is_prefix_verb(verb) || verb == "put"@ || verb == "put-json"@ || verb
        == "help"@ || verb == "?"@ || verb == "exit"@ || verb == "quit"@
}

/// The command that a (lower-case) verb and the words after it stand for.
pub open spec fn command_of(verb: Seq<char>, args: Seq<Seq<char>>) -> Result<
    CommandView,
    ErrorView,
> {
    let first = if args.len() > 0 {
        args[0]
    } else {
        seq![]
    };
    let rest = join_spaces(args.drop_first());
    if is_key_verb(verb) {
        if args.len() == 0 {
            Err(ErrorView::MissingArgument("key"@))
        } else if verb == "get"@ {
            Ok(CommandView::Get { key: first })
        } else if verb == "watch"@ {
            Ok(CommandView::Watch { key: first })
        } else if verb == "edit"@ {
            Ok(CommandView::Edit { key: first })
        } else if verb == "get-json"@ {
            Ok(CommandView::GetJson { key: first })
        } else {
            Ok(CommandView::Delete { key: first })
        }
    } else if is_prefix_verb(verb) {
        if verb == "list"@ {
            Ok(CommandView::List { prefix: first })
        } else if verb == "tree"@ {
            Ok(CommandView::Tree { prefix: first })
        } else {
            Ok(CommandView::WatchPrefix { prefix: first })
        }
    } else if verb == "put"@ || verb == "put-json"@ {
        if args.len() == 0 {
            Err(ErrorView::MissingArgument("key"@))
        } else if rest.len() == 0 {
            Err(ErrorView::MissingArgument(if verb == "put"@ { "value"@ } else { "json"@ }))
        } else if verb == "put"@ {
            Ok(CommandView::Put { key: first, value: rest })
        } else {
            Ok(CommandView::PutJson { key: first, json: rest })
        }
    } else if verb == "help"@ || verb == "?"@ {
        Ok(CommandView::Help)
    } else if verb == "exit"@ || verb == "quit"@ {
        Ok(CommandView::Empty)
    } else {
        Err(ErrorView::UnknownCommand(verb))
    }
}

/// What a whole line parses to; an unknown verb is reported as it was typed.
pub open spec fn parse_spec(line: Seq<char>) -> Result<CommandView, ErrorView> {
    let ws = words(line);
    if ws.len() == 0 {
        Ok(CommandView::Empty)
    } else {
        match command_of(lower_of(ws[0]), ws.drop_first()) {
            Err(ErrorView::UnknownCommand(_)) => Err(ErrorView::UnknownCommand(ws[0])),
            other => other,
        }
    }
}

/// The first argument, or the empty string where there is none.
fn first_or_empty(args: &Vec<String>) -> (r: String)
    ensures
        r@ == (if args@.len() > 0 {
            args@[0]@
        } else {
            seq![]
        }),
{
    if args.len() > 0 {
        args[0].clone()
    } else {
        String::new()
    }
}

/// Makes the characters of each verb and argument name known.
proof fn reveal_words()
    ensures
        "get"@ == seq!['g', 'e', 't'],
        "del"@ == seq!['d', 'e', 'l'],
        "delete"@ == seq!['d', 'e', 'l', 'e', 't', 'e'],
        "watch"@ == seq!['w', 'a', 't', 'c', 'h'],
        "edit"@ == seq!['e', 'd', 'i', 't'],
        "get-json"@ == seq!['g', 'e', 't', '-', 'j', 's', 'o', 'n'],
        "list"@ == seq!['l', 'i', 's', 't'],
        "tree"@ == seq!['t', 'r', 'e', 'e'],
        "watch-prefix"@ == seq!['w', 'a', 't', 'c', 'h', '-', 'p', 'r', 'e', 'f', 'i', 'x'],
        "put"@ == seq!['p', 'u', 't'],
        "put-json"@ == seq!['p', 'u', 't', '-', 'j', 's', 'o', 'n'],
        "help"@ == seq!['h', 'e', 'l', 'p'],
        "?"@ == seq!['?'],
        "exit"@ == seq!['e', 'x', 'i', 't'],
        "quit"@ == seq!['q', 'u', 'i', 't'],
        "key"@ == seq!['k', 'e', 'y'],
        "value"@ == seq!['v', 'a', 'l', 'u', 'e'],
        "json"@ == seq!['j', 's', 'o', 'n'],
{
    reveal_strlit("get");
    reveal_strlit("del");
    reveal_strlit("delete");
    reveal_strlit("watch");
    reveal_strlit("edit");
    reveal_strlit("get-json");
    reveal_strlit("list");
    reveal_strlit("tree");
    reveal_strlit("watch-prefix");
    reveal_strlit("put");
    reveal_strlit("put-json");
    reveal_strlit("help");
    reveal_strlit("?");
    reveal_strlit("exit");
    reveal_strlit("quit");
    reveal_strlit("key");
    reveal_strlit("value");
    reveal_strlit("json");
}

/// Builds the command for a verb, already in lower case, and the words that follow it.
pub fn parse_tokens(verb: &str, args: &Vec<String>) -> (r: Result<Command, ConsulXError>)
    ensures
        parsed_view(r) == command_of(verb@, views(args@)),
{
    proof {
        reveal_words();
    }
    let ghost a = views(args@);
    let is_get = same_text(verb, "get");
    let is_del = same_text(verb, "del") || same_text(verb, "delete");
    let is_watch = same_text(verb, "watch");
    let is_edit = same_text(verb, "edit");
    let is_get_json = same_text(verb, "get-json");
    if is_get || is_del || is_watch || is_edit || is_get_json {
        if args.len() == 0 {
            return Err(ConsulXError::MissingArgument("key"));
        }
        let key = args[0].clone();
        if is_get {
            Ok(Command::Get { key })
        } else if is_watch {
            Ok(Command::Watch { key })
        } else if is_edit {
            Ok(Command::Edit { key })
        } else if is_get_json {
            Ok(Command::GetJson { key })
        } else {
            Ok(Command::Delete { key })
        }
    } else if same_text(verb, "list") {
        Ok(Command::List { prefix: first_or_empty(args) })
    } else if same_text(verb, "tree") {
        Ok(Command::Tree { prefix: first_or_empty(args) })
    } else if same_text(verb, "watch-prefix") {
        Ok(Command::WatchPrefix { prefix: first_or_empty(args) })
    } else if same_text(verb, "put") || same_text(verb, "put-json") {
        let is_put = same_text(verb, "put");
        if args.len() == 0 {
            return Err(ConsulXError::MissingArgument("key"));
        }
        let key = args[0].clone();
        let rest = join_words_from(args, 1);
        assert(a.subrange(1, a.len() as int) =~= a.drop_first());
        if rest.unicode_len() == 0 {
            if is_put {
                Err(ConsulXError::MissingArgument("value"))
            } else {
                Err(ConsulXError::MissingArgument("json"))
            }
        } else if is_put {
            Ok(Command::Put { key, value: rest })
        } else {
            Ok(Command::PutJson { key, json: rest })
        }
    } else if same_text(verb, "help") || same_text(verb, "?") {
        Ok(Command::Help)
    } else if same_text(verb, "exit") || same_text(verb, "quit") {
        Ok(Command::Empty)
    } else {
        Err(ConsulXError::UnknownCommand(String::from_str(verb)))
    }
}

/// Parses one line of input: its first word, in lower case, is the verb. An unknown verb is
/// reported as it was typed.
pub fn parse(input: &str) -> (r: Result<Command, ConsulXError>)
    ensures
        parsed_view(r) == parse_spec(input@),
{
    let mut ws = split_words(input);
    if ws.len() == 0 {
        return Ok(Command::Empty);
    }
    let first = ws.remove(0);
    let verb = to_lower(first.as_str());
    assert(views(ws@) =~= words(input@).drop_first());
    match parse_tokens(verb.as_str(), &ws) {
        Err(ConsulXError::UnknownCommand(_)) => Err(ConsulXError::UnknownCommand(first)),
        other => other,
    }
}


/// Each verb that needs a key reports the key as missing when no word follows it.
pub proof fn lemma_missing_key(verb: Seq<char>)
    requires
        is_key_verb(verb) || verb == "put"@ || verb == "put-json"@,
    ensures
        command_of(verb, seq![]) == Err::<CommandView, ErrorView>(
            ErrorView::MissingArgument("key"@),
        ),
{
    reveal_words();
}

/// `put` followed by a key alone reports the value as missing, `put-json` the json.
pub proof fn lemma_missing_payload(verb: Seq<char>, key: Seq<char>)
    requires
        verb == "put"@ || verb == "put-json"@,
    ensures
        command_of(verb, seq![key]) == Err::<CommandView, ErrorView>(
            ErrorView::MissingArgument(
                if verb == "put"@ {
                    "value"@
                } else {
                    "json"@
                },
            ),
        ),
{
    reveal_words();
    assert(seq![key].drop_first() =~= Seq::<Seq<char>>::empty());
}

/// The verbs that take a prefix never fail: without one, the prefix is empty.
pub proof fn lemma_prefix_optional(verb: Seq<char>)
    requires
        is_prefix_verb(verb),
    ensures
        command_of(verb, seq![]) == Ok::<CommandView, ErrorView>(
            if verb == "list"@ {
                CommandView::List { prefix: seq![] }
            } else if verb == "tree"@ {
                CommandView::Tree { prefix: seq![] }
            } else {
                CommandView::WatchPrefix { prefix: seq![] }
            },
        ),
{
    reveal_words();
    assert(verb.len() == 12 || verb[0] != "edit"@[0]);
}

/// A verb that the parser does not know is reported as it stands, whatever follows it.
pub proof fn lemma_unknown_verb(verb: Seq<char>, args: Seq<Seq<char>>)
    requires
        !is_known_verb(verb),
    ensures
        command_of(verb, args) == Err::<CommandView, ErrorView>(ErrorView::UnknownCommand(verb)),
{
    reveal_words();
}

/// A line that holds only white space has no words.
pub proof fn lemma_blank_has_no_words(line: Seq<char>)
    requires
        forall|i: int| 0 <= i < line.len() ==> is_space(#[trigger] line[i]),
    ensures
        words(line).len() == 0,
    decreases line.len(),
{
    if line.len() > 0 {
        lemma_blank_has_no_words(line.drop_last());
    }
}

/// A blank line parses to the empty command, never to an error.
pub proof fn lemma_blank_line(line: Seq<char>)
    requires
        forall|i: int| 0 <= i < line.len() ==> is_space(#[trigger] line[i]),
    ensures
        parse_spec(line) == Ok::<CommandView, ErrorView>(CommandView::Empty),
{
    lemma_blank_has_no_words(line);
}


/// A line made of one word that is, in lower case, a verb needing a key reports the key as
/// missing.
pub proof fn lemma_line_missing_key(line: Seq<char>)
    requires
        words(line).len() == 1,
        is_key_verb(lower_of(words(line)[0])) || lower_of(words(line)[0]) == "put"@ || lower_of(
            words(line)[0],
        ) == "put-json"@,
    ensures
        parse_spec(line) == Err::<CommandView, ErrorView>(ErrorView::MissingArgument("key"@)),
{
    assert(words(line).drop_first() =~= Seq::<Seq<char>>::empty());
    lemma_missing_key(lower_of(words(line)[0]));
}

/// A line whose first word is, in lower case, no known verb is reported with that word as it
/// was typed.
pub proof fn lemma_line_unknown_verb(line: Seq<char>)
    requires
        words(line).len() >= 1,
        !is_known_verb(lower_of(words(line)[0])),
    ensures
        parse_spec(line) == Err::<CommandView, ErrorView>(
            ErrorView::UnknownCommand(words(line)[0]),
        ),
{
    lemma_unknown_verb(lower_of(words(line)[0]), words(line).drop_first());
}

} // verus!

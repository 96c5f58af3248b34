//! The command interpreter: one line of text becomes a command or a typed
//! parse error. Parsing reads nothing but the line and changes nothing.

use vstd::prelude::*;
use vstd::string::*;
use crate::app::model::{action_for, can_apply};
use crate::app::{Action, App};
use crate::habit::Day;
use crate::text::{decimal, is_digit, push_decimal, str_eq};

verus! {

/// A parsed command.
#[derive(Clone, Debug, PartialEq, Eq)]
pub enum Command {
    /// Name, optional goal, and whether the habit is fed from outside.
    Add(String, Option<u32>, bool),
    MonthPrev,
    MonthNext,
    Delete(String),
    TrackUp(String),
    TrackDown(String),
    /// Never produced by the interpreter; applying it changes nothing.
    SetGoal(u32),
    SetName(String),
    Quit,
    Blank,
}

/// Why a line could not be parsed.
#[derive(Clone, Debug, PartialEq, Eq)]
pub enum CommandLineError {
    /// The verb is not known.
    InvalidCommand(String),
    /// The argument at this position (counted from one) is malformed.
    InvalidArg(u32),
    /// The verb needs at least this many arguments.
    NotEnoughArgs(String, u32),
}

/// Mathematical value of a [`Command`].
pub enum CommandView {
    Add(Seq<char>, Option<u32>, bool),
    MonthPrev,
    MonthNext,
    Delete(Seq<char>),
    TrackUp(Seq<char>),
    TrackDown(Seq<char>),
    SetGoal(u32),
    SetName(Seq<char>),
    Quit,
    Blank,
}

/// Mathematical value of a [`CommandLineError`].
pub enum ErrorView {
    InvalidCommand(Seq<char>),
    InvalidArg(u32),
    NotEnoughArgs(Seq<char>, u32),
}

impl View for Command {
    type V = CommandView;

    open spec fn view(&self) -> CommandView {
        match self {
            Command::Add(name, goal, auto) => CommandView::Add(name@, *goal, *auto),
            Command::MonthPrev => CommandView::MonthPrev,
            Command::MonthNext => CommandView::MonthNext,
            Command::Delete(name) => CommandView::Delete(name@),
            Command::TrackUp(name) => CommandView::TrackUp(name@),
            Command::TrackDown(name) => CommandView::TrackDown(name@),
            Command::SetGoal(goal) => CommandView::SetGoal(*goal),
            Command::SetName(name) => CommandView::SetName(name@),
            Command::Quit => CommandView::Quit,
            Command::Blank => CommandView::Blank,
        }
    }
}

impl View for CommandLineError {
    type V = ErrorView;

    open spec fn view(&self) -> ErrorView {
        match self {
            CommandLineError::InvalidCommand(verb) => ErrorView::InvalidCommand(verb@),
            CommandLineError::InvalidArg(position) => ErrorView::InvalidArg(*position),
            CommandLineError::NotEnoughArgs(verb, least) => ErrorView::NotEnoughArgs(
                verb@,
                *least,
            ),
        }
    }
}

/// Mathematical value of the interpreter's result.
pub open spec fn result_view(r: Result<Command, CommandLineError>) -> Result<
    CommandView,
    ErrorView,
> {
    match r {
        Ok(c) => Ok(c@),
        Err(e) => Err(e@),
    }
}

impl ErrorView {
    /// The text shown to the user for this error.
    pub open spec fn message(self) -> Seq<char> {
        match self {
            ErrorView::InvalidCommand(verb) => "Invalid command: `"@ + verb + "`"@,
            ErrorView::InvalidArg(position) => "Invalid argument at position "@ + decimal(
                position as nat,
            ),
            ErrorView::NotEnoughArgs(verb, least) => "Command `"@ + verb + "` requires atleast "@
                + decimal(least as nat) + " argument(s)!"@,
        }
    }
}

impl CommandLineError {
    /// The text shown to the user for this error.
    pub fn message(&self) -> (text: String)
        ensures
            text@ == self@.message(),
    {
        match self {
            CommandLineError::InvalidCommand(verb) => {
                let mut text = String::from_str("Invalid command: `");
                text.append(verb.as_str());
                text.append("`");
                text
            },
            CommandLineError::InvalidArg(position) => {
                let mut text = String::from_str("Invalid argument at position ");
                push_decimal(&mut text, *position as u128);
                text
            },
            CommandLineError::NotEnoughArgs(verb, least) => {
                let mut text = String::from_str("Command `");
                text.append(verb.as_str());
                text.append("` requires atleast ");
                push_decimal(&mut text, *least as u128);
                text.append(" argument(s)!");
                text
            },
        }
    }
}

/// White space as Unicode defines it (the property `White_Space`).
pub open spec fn is_whitespace(c: char) -> bool {
    let u = c as u32;
    ||| 0x09 <= u <= 0x0D
    ||| u == 0x20
    ||| u == 0x85
    ||| u == 0xA0
    ||| u == 0x1680
    ||| 0x2000 <= u <= 0x200A
    ||| u == 0x2028
    ||| u == 0x2029
    ||| u == 0x202F
    ||| u == 0x205F
    ||| u == 0x3000
}

/// Number of white-space characters that `s` begins with.
pub open spec fn leading_whitespace(s: Seq<char>) -> nat
    decreases s.len(),
{
    if s.len() > 0 && is_whitespace(s[0]) {
        1 + leading_whitespace(s.drop_first())
    } else {
        0
    }
}

/// Number of white-space characters that `s` ends with.
pub open spec fn trailing_whitespace(s: Seq<char>) -> nat
    decreases s.len(),
{
    if s.len() > 0 && is_whitespace(s.last()) {
        1 + trailing_whitespace(s.drop_last())
    } else {
        0
    }
}

/// `s` without the white space at its two ends.
pub open spec fn trim(s: Seq<char>) -> Seq<char> {
    let rest = s.skip(leading_whitespace(s) as int);
    rest.take(rest.len() - trailing_whitespace(rest))
}

/// Position of the first space in `s`, or its length where it has none.
pub open spec fn first_space(s: Seq<char>) -> nat
    decreases s.len(),
{
    if s.len() == 0 || s[0] == ' ' {
        0
    } else {
        1 + first_space(s.drop_first())
    }
}

/// The pieces of `s` between single spaces. There is always at least one
/// piece; two spaces in a row enclose an empty piece.
pub open spec fn split_spaces(s: Seq<char>) -> Seq<Seq<char>>
    decreases s.len(),
{
    let k = first_space(s) as int;
    if k >= s.len() {
        seq![s]
    } else {
        seq![s.take(k)] + split_spaces(s.skip(k + 1))
    }
}

/// Whether `s` holds ASCII digits only.
pub open spec fn all_digits(s: Seq<char>) -> bool {
    forall|i: int| 0 <= i < s.len() ==> is_digit(#[trigger] s[i])
}

/// The number that a sequence of digits denotes in base ten.
pub open spec fn digits_value(s: Seq<char>) -> nat
    decreases s.len(),
{
    if s.len() == 0 {
        0
    } else {
        (10 * digits_value(s.drop_last()) + (s.last() as u32 - '0' as u32)) as nat
    }
}

/// The goal that an argument denotes: an optional `+`, then one or more
/// digits whose value fits in 32 bits.
pub open spec fn parse_goal(s: Seq<char>) -> Option<u32> {
    let digits = if s.len() > 0 && s[0] == '+' {
        s.skip(1)
    } else {
        s
    };
    if digits.len() > 0 && all_digits(digits) && digits_value(digits) <= u32::MAX {
        Some(digits_value(digits) as u32)
    } else {
        None
    }
}

/// What the interpreter makes of a verb and its arguments.
pub open spec fn interpret(verb: Seq<char>, args: Seq<Seq<char>>) -> Result<
    CommandView,
    ErrorView,
> {
    if verb == "add"@ || verb == "a"@ {
        interpret_add(verb, args, false)
    } else if verb == "add-auto"@ || verb == "aa"@ {
        interpret_add(verb, args, true)
    } else if verb == "delete"@ || verb == "d"@ {
        if args.len() == 0 {
            Err(ErrorView::NotEnoughArgs(verb, 1))
        } else {
            Ok(CommandView::Delete(args[0]))
        }
    } else if verb == "track-up"@ || verb == "tup"@ {
        if args.len() == 0 {
            Err(ErrorView::NotEnoughArgs(verb, 1))
        } else {
            Ok(CommandView::TrackUp(args[0]))
        }
    } else if verb == "track-down"@ || verb == "tdown"@ {
        if args.len() == 0 {
            Err(ErrorView::NotEnoughArgs(verb, 1))
        } else {
            Ok(CommandView::TrackDown(args[0]))
        }
    } else if verb == "mprev"@ || verb == "month-prev"@ {
        Ok(CommandView::MonthPrev)
    } else if verb == "mnext"@ || verb == "month-next"@ {
        Ok(CommandView::MonthNext)
    } else if verb == "set-name"@ || verb == "setn"@ {
        if args.len() == 0 {
            Err(ErrorView::NotEnoughArgs(verb, 1))
        } else {
            Ok(CommandView::SetName(args[0]))
        }
    } else if verb == "q"@ || verb == "quit"@ {
        Ok(CommandView::Quit)
    } else if verb.len() == 0 {
        Ok(CommandView::Blank)
    } else {
        Err(ErrorView::InvalidCommand(verb))
    }
}

/// The two forms of `add`: a name, then optionally a goal. Arguments after
/// the second are ignored.
pub open spec fn interpret_add(verb: Seq<char>, args: Seq<Seq<char>>, auto: bool) -> Result<
    CommandView,
    ErrorView,
> {
    if args.len() == 0 {
        Err(ErrorView::NotEnoughArgs(verb, 1))
    } else if args.len() == 1 {
        Ok(CommandView::Add(args[0], None, auto))
    } else {
        match parse_goal(args[1]) {
            Some(goal) => Ok(CommandView::Add(args[0], Some(goal), auto)),
            None => Err(ErrorView::InvalidArg(2)),
        }
    }
}

/// What a line of input means: trim it, split it at single spaces, and read
/// the first piece as the verb and the others as its arguments.
pub open spec fn parse_line(line: Seq<char>) -> Result<CommandView, ErrorView> {
    let pieces = split_spaces(trim(line));
    interpret(pieces[0], pieces.skip(1))
}

/// Views of the pieces that a line was cut into.
pub open spec fn piece_views(pieces: Seq<&str>) -> Seq<Seq<char>> {
    Seq::new(pieces.len(), |i: int| pieces[i]@)
}

proof fn lemma_leading_whitespace(s: Seq<char>, i: int)
    requires
        0 <= i <= s.len(),
        forall|k: int| 0 <= k < i ==> is_whitespace(#[trigger] s[k]),
        i == s.len() || !is_whitespace(s[i]),
    ensures
        leading_whitespace(s) == i,
    decreases i,
{
    if i > 0 {
        let rest = s.drop_first();
        assert forall|k: int| 0 <= k < i - 1 implies is_whitespace(#[trigger] rest[k]) by {
            assert(rest[k] == s[k + 1]);
        }
        lemma_leading_whitespace(rest, i - 1);
    }
}

proof fn lemma_trailing_whitespace(s: Seq<char>, j: int)
    requires
        0 <= j <= s.len(),
        forall|k: int| j <= k < s.len() ==> is_whitespace(#[trigger] s[k]),
        j == 0 || !is_whitespace(s[j - 1]),
    ensures
        trailing_whitespace(s) == s.len() - j,
    decreases s.len() - j,
{
    if j < s.len() {
        let rest = s.drop_last();
        assert forall|k: int| j <= k < rest.len() implies is_whitespace(#[trigger] rest[k]) by {
            assert(rest[k] == s[k]);
        }
        lemma_trailing_whitespace(rest, j);
    }
}

proof fn lemma_first_space(s: Seq<char>, i: int)
    requires
        0 <= i <= s.len(),
        forall|k: int| 0 <= k < i ==> #[trigger] s[k] != ' ',
        i == s.len() || s[i] == ' ',
    ensures
        first_space(s) == i,
    decreases i,
{
    if i > 0 {
        let rest = s.drop_first();
        assert forall|k: int| 0 <= k < i - 1 implies #[trigger] rest[k] != ' ' by {
            assert(rest[k] == s[k + 1]);
        }
        lemma_first_space(rest, i - 1);
    }
}

proof fn lemma_digits_value_prefix(s: Seq<char>, k: int)
    requires
        all_digits(s),
        0 <= k <= s.len(),
    ensures
        digits_value(s.take(k)) <= digits_value(s),
    decreases s.len() - k,
{
    if k == s.len() {
        assert(s.take(k) =~= s);
    } else {
        let rest = s.drop_last();
        assert forall|i: int| 0 <= i < rest.len() implies is_digit(#[trigger] rest[i]) by {
            assert(rest[i] == s[i]);
        }
        lemma_digits_value_prefix(rest, k);
        assert(rest.take(k) =~= s.take(k));
        assert(is_digit(s[s.len() - 1]));
    }
}

fn is_whitespace_char(c: char) -> (yes: bool)
    ensures
        yes == is_whitespace(c),
{
    let u: u32 = c as u32;
    (0x09 <= u && u <= 0x0D) || u == 0x20 || u == 0x85 || u == 0xA0 || u == 0x1680 || (0x2000 <= u
        && u <= 0x200A) || u == 0x2028 || u == 0x2029 || u == 0x202F || u == 0x205F || u == 0x3000
}

/// The line without the white space at its two ends.
fn trimmed<'a>(line: &'a str) -> (inner: &'a str)
    ensures
        inner@ == trim(line@),
{
    let n = line.unicode_len();
    let mut from: usize = 0;
    while from < n && is_whitespace_char(line.get_char(from))
        invariant
            n == line@.len(),
            from <= n,
            forall|k: int| 0 <= k < from ==> is_whitespace(#[trigger] line@[k]),
        decreases n - from,
    {
        from += 1;
    }
    let mut to: usize = n;
    while to > from && is_whitespace_char(line.get_char(to - 1))
        invariant
            n == line@.len(),
            from <= to <= n,
            forall|k: int| to <= k < n ==> is_whitespace(#[trigger] line@[k]),
        decreases to,
    {
        to -= 1;
    }
    proof {
        lemma_leading_whitespace(line@, from as int);
        let rest = line@.skip(from as int);
        assert forall|k: int| to - from <= k < rest.len() implies is_whitespace(
            #[trigger] rest[k],
        ) by {
            assert(rest[k] == line@[k + from]);
        }
        if to > from {
            assert(rest[to - from - 1] == line@[to - 1]);
        }
        lemma_trailing_whitespace(rest, to - from);
        assert(rest.take(to - from) =~= line@.subrange(from as int, to as int));
    }
    line.substring_char(from, to)
}

/// The pieces of the line between single spaces.
fn split_pieces<'a>(line: &'a str) -> (pieces: Vec<&'a str>)
    ensures
        piece_views(pieces@) == split_spaces(line@),
        pieces.len() >= 1,
{
    let n = line.unicode_len();
    let mut pieces: Vec<&'a str> = Vec::new();
    let mut start: usize = 0;
    let mut i: usize = 0;
    proof {
        assert(line@.skip(0) =~= line@);
        assert(piece_views(pieces@) + split_spaces(line@) =~= split_spaces(line@));
    }
    while i < n
        invariant
            n == line@.len(),
            start <= i <= n,
            forall|k: int| start <= k < i ==> #[trigger] line@[k] != ' ',
            split_spaces(line@) == piece_views(pieces@) + split_spaces(line@.skip(start as int)),
        decreases n - i,
    {
        if line.get_char(i) == ' ' {
            let piece = line.substring_char(start, i);
            proof {
                let rest = line@.skip(start as int);
                assert forall|k: int| 0 <= k < i - start implies #[trigger] rest[k] != ' ' by {
                    assert(rest[k] == line@[k + start]);
                }
                lemma_first_space(rest, i - start);
                assert(rest.take(i - start) =~= piece@);
                assert(rest.skip(i - start + 1) =~= line@.skip(i + 1));
                assert(piece_views(pieces@.push(piece)) =~= piece_views(pieces@) + seq![piece@]);
            }
            pieces.push(piece);
            start = i + 1;
        }
        i += 1;
    }
    let piece = line.substring_char(start, n);
    proof {
        let rest = line@.skip(start as int);
        assert forall|k: int| 0 <= k < n - start implies #[trigger] rest[k] != ' ' by {
            assert(rest[k] == line@[k + start]);
        }
        lemma_first_space(rest, n - start);
        assert(rest =~= piece@);
        assert(piece_views(pieces@.push(piece)) =~= piece_views(pieces@) + seq![piece@]);
    }
    pieces.push(piece);
    pieces
}

/// Reads an argument as a goal.
fn parse_goal_text(text: &str) -> (goal: Option<u32>)
    ensures
        goal == parse_goal(text@),
{
    let n = text.unicode_len();
    let start: usize = if n > 0 && text.get_char(0) == '+' {
        1
    } else {
        0
    };
    if start == n {
        return None;
    }
    let ghost digits = text@.skip(start as int);
    proof {
        assert(text@.skip(0) =~= text@);
        assert(digits.take(0) =~= Seq::<char>::empty());
    }
    assert(digits == if text@.len() > 0 && text@[0] == '+' {
        text@.skip(1)
    } else {
        text@
    });
    let mut value: u64 = 0;
    let mut i: usize = start;
    while i < n
        invariant
            n == text@.len(),
            start <= i <= n,
            digits == text@.skip(start as int),
            digits == if text@.len() > 0 && text@[0] == '+' {
                text@.skip(1)
            } else {
                text@
            },
            all_digits(digits.take(i - start)),
            value == digits_value(digits.take(i - start)),
            value <= u32::MAX,
        decreases n - i,
    {
        let c = text.get_char(i);
        let u: u32 = c as u32;
        if u < 48 || u > 57 {
            proof {
                assert(digits[i - start] == c);
                assert(!is_digit(c));
            }
            return None;
        }
        let next: u64 = value * 10 + (u - 48) as u64;
        proof {
            let longer = digits.take(i + 1 - start);
            assert(longer.drop_last() =~= digits.take(i - start));
            assert(longer.last() == c);
            assert(is_digit(c));
            assert forall|k: int| 0 <= k < longer.len() implies is_digit(#[trigger] longer[k]) by {
                if k < i - start {
                    assert(longer[k] == digits.take(i - start)[k]);
                }
            }
            assert(next == digits_value(longer));
        }
        if next > 0xffff_ffff {
            proof {
                if all_digits(digits) {
                    lemma_digits_value_prefix(digits, i + 1 - start);
                }
            }
            return None;
        }
        value = next;
        i += 1;
    }
    assert(digits.take(n - start) =~= digits);
    Some(value as u32)
}

/// The first argument, or the error for a verb that has none.
fn first_argument(pieces: &Vec<&str>) -> (r: Result<String, CommandLineError>)
    requires
        pieces.len() >= 1,
    ensures
        pieces.len() == 1 ==> r is Err && r->Err_0@ == ErrorView::NotEnoughArgs(pieces[0]@, 1),
        pieces.len() > 1 ==> r is Ok && r->Ok_0@ == pieces[1]@,
{
    if pieces.len() < 2 {
        Err(CommandLineError::NotEnoughArgs(String::from_str(pieces[0]), 1))
    } else {
        Ok(String::from_str(pieces[1]))
    }
}

fn parse_add(pieces: &Vec<&str>, auto: bool) -> (r: Result<Command, CommandLineError>)
    requires
        pieces.len() >= 1,
    ensures
        result_view(r) == interpret_add(
            piece_views(pieces@)[0],
            piece_views(pieces@).skip(1),
            auto,
        ),
{
    match first_argument(pieces) {
        Err(e) => Err(e),
        Ok(name) => {
            if pieces.len() < 3 {
                Ok(Command::Add(name, None, auto))
            } else {
                match parse_goal_text(pieces[2]) {
                    Some(goal) => Ok(Command::Add(name, Some(goal), auto)),
                    None => Err(CommandLineError::InvalidArg(2)),
                }
            }
        },
    }
}

impl Command {
    /// Parses one line of input.
    pub fn from_string(input: &str) -> (r: Result<Command, CommandLineError>)
        ensures
            result_view(r) == parse_line(input@),
    {
        let pieces = split_pieces(trimmed(input));
        let verb = pieces[0];
        let ghost args = piece_views(pieces@).skip(1);
        assert(piece_views(pieces@)[0] == verb@);
        assert(args.len() == pieces.len() - 1);
        assert(pieces.len() > 1 ==> args[0] == pieces[1]@);
        if str_eq(verb, "add") || str_eq(verb, "a") {
            parse_add(&pieces, false)
        } else if str_eq(verb, "add-auto") || str_eq(verb, "aa") {
            parse_add(&pieces, true)
        } else if str_eq(verb, "delete") || str_eq(verb, "d") {
            match first_argument(&pieces) {
                Ok(name) => Ok(Command::Delete(name)),
                Err(e) => Err(e),
            }
        } else if str_eq(verb, "track-up") || str_eq(verb, "tup") {
            match first_argument(&pieces) {
                Ok(name) => Ok(Command::TrackUp(name)),
                Err(e) => Err(e),
            }
        } else if str_eq(verb, "track-down") || str_eq(verb, "tdown") {
            match first_argument(&pieces) {
                Ok(name) => Ok(Command::TrackDown(name)),
                Err(e) => Err(e),
            }
        } else if str_eq(verb, "mprev") || str_eq(verb, "month-prev") {
            Ok(Command::MonthPrev)
        } else if str_eq(verb, "mnext") || str_eq(verb, "month-next") {
            Ok(Command::MonthNext)
        } else if str_eq(verb, "set-name") || str_eq(verb, "setn") {
            match first_argument(&pieces) {
                Ok(name) => Ok(Command::SetName(name)),
                Err(e) => Err(e),
            }
        } else if str_eq(verb, "q") || str_eq(verb, "quit") {
            Ok(Command::Quit)
        } else if verb.unicode_len() == 0 {
            Ok(Command::Blank)
        } else {
            Err(CommandLineError::InvalidCommand(String::from_str(verb)))
        }
    }
}

/// Runs one line of input against the state: interprets the line, empties
/// the message line, and applies what the line meant. Says whether the
/// state is now to be persisted.
pub fn call_on_app(app: &mut App, input: &str) -> (action: Action)
    requires
        old(app)@.wf(),
        can_apply(old(app)@, parse_line(input@)),
    ensures
        exists|today: Day|
            final(app)@ == #[trigger] old(app)@.clear_message().apply(parse_line(input@), today),
        action == action_for(parse_line(input@)),
        final(app)@.wf(),
{
    let cmd = Command::from_string(input);
    app.clear_message();
    app.parse_command(cmd)
}

} // verus!

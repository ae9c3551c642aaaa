//! The commands that the operator of a node types, and how a typed line is
//! read.

use vstd::prelude::*;

verus! {

/// An operator command.
#[derive(Debug)]
pub enum Command {
    /// A new transaction: sender, recipient, amount.
    NewTrans(String, String, i64),
    /// Show the blocks.
    Display,
    /// Greet the node at an address and take it as a peer.
    AddPeer(String),
    /// Show the peers.
    DisplayPeers,
    /// Ask every peer for its chain and adopt the longest valid one.
    Resolve,
    /// Mine a block.
    Mine,
}

pub enum CommandView {
    NewTrans(Seq<char>, Seq<char>, i64),
    Display,
    AddPeer(Seq<char>),
    DisplayPeers,
    Resolve,
    Mine,
}

impl View for Command {
    type V = CommandView;

    open spec fn view(&self) -> CommandView {
        match self {
            Command::NewTrans(s, r, a) => CommandView::NewTrans(s@, r@, *a),
            Command::Display => CommandView::Display,
            Command::AddPeer(a) => CommandView::AddPeer(a@),
            Command::DisplayPeers => CommandView::DisplayPeers,
            Command::Resolve => CommandView::Resolve,
            Command::Mine => CommandView::Mine,
        }
    }
}

/// Why a typed line is refused.
#[derive(Debug, PartialEq, Eq, Structural, Clone, Copy)]
pub enum InputError {
    /// The command needs more arguments than were given.
    NotEnoughArguments,
    /// The amount of a new transaction is not an `i64`.
    IllegalAmount,
    /// The first word names no command.
    UnknownCommand,
}

/// What a typed line asks for.
#[derive(Debug)]
pub enum Input {
    /// Nothing: the line holds no word.
    Blank,
    /// A command for the node.
    Run(Command),
    /// The list of commands.
    Help,
    /// Leaving.
    Exit,
    /// A line that is refused.
    Invalid(InputError),
}

pub enum InputView {
    Blank,
    Run(CommandView),
    Help,
    Exit,
    Invalid(InputError),
}

impl View for Input {
    type V = InputView;

    open spec fn view(&self) -> InputView {
        match self {
            Input::Blank => InputView::Blank,
            Input::Run(c) => InputView::Run(c@),
            Input::Help => InputView::Help,
            Input::Exit => InputView::Exit,
            Input::Invalid(e) => InputView::Invalid(*e),
        }
    }
}

pub open spec fn is_digit(c: char) -> bool {
    48 <= (c as u32) <= 57
}

pub open spec fn digit_value(c: char) -> int {
    (c as u32) as int - 48
}

/// The value of a text of decimal digits.
pub open spec fn digits_value(s: Seq<char>) -> int
    decreases s.len(),
{
    if s.len() == 0 {
        0
    } else {
        10 * digits_value(s.drop_last()) + digit_value(s.last())
    }
}

pub open spec fn all_digits(s: Seq<char>) -> bool {
    forall|i: int| 0 <= i < s.len() ==> is_digit(#[trigger] s[i])
}

/// The `i64` that a text writes: an optional `+` or `-`, then at least one
/// decimal digit, with a value in the range of `i64`.
pub open spec fn integer_of(s: Seq<char>) -> Option<i64> {
    let signed = s.len() > 0 && (s[0] == '-' || s[0] == '+');
    let digits = if signed {
        s.drop_first()
    } else {
        s
    };
    let value = if s.len() > 0 && s[0] == '-' {
        -digits_value(digits)
    } else {
        digits_value(digits)
    };
    if digits.len() > 0 && all_digits(digits) && i64::MIN <= value <= i64::MAX {
        Some(value as i64)
    } else {
        None
    }
}

proof fn lemma_digits_value_grows(s: Seq<char>, j: int)
    requires
        0 <= j <= s.len(),
        all_digits(s),
    ensures
        0 <= digits_value(s.take(j)) <= digits_value(s),
    decreases s.len() - j,
{
    if j < s.len() {
        lemma_digits_value_grows(s, j + 1);
        let next = s.take(j + 1);
        assert(next.drop_last() =~= s.take(j));
        assert(is_digit(s[j]));
        lemma_digits_value_nonneg(s.take(j));
    } else {
        assert(s.take(j) =~= s);
        lemma_digits_value_nonneg(s);
    }
}

proof fn lemma_digits_value_nonneg(s: Seq<char>)
    requires
        all_digits(s),
    ensures
        digits_value(s) >= 0,
    decreases s.len(),
{
    if s.len() > 0 {
        assert(all_digits(s.drop_last())) by {
            assert forall|i: int| 0 <= i < s.drop_last().len() implies is_digit(
                #[trigger] s.drop_last()[i],
            ) by {
                assert(s.drop_last()[i] == s[i]);
            }
        }
        lemma_digits_value_nonneg(s.drop_last());
        assert(is_digit(s.last()));
    }
}

/// Reads the `i64` that `s` writes, as `str::parse::<i64>` does.
pub fn parse_integer(s: &str) -> (r: Option<i64>)
    ensures
        r == integer_of(s@),
{
    let n = s.unicode_len();
    if n == 0 {
        return None;
    }
    let first = s.get_char(0);
    let negative = first == '-';
    let start: usize = if first == '-' || first == '+' {
        1
    } else {
        0
    };
    let ghost digits = if start == 1 {
        s@.drop_first()
    } else {
        s@
    };
    assert(digits =~= s@.subrange(start as int, n as int));
    assert(first == s@[0]);
    assert((s@.len() > 0 && (s@[0] == '-' || s@[0] == '+')) == (start == 1));
    if start == n {
        return None;
    }
    let limit: u64 = 0x8000_0000_0000_0000;
    let mut acc: u64 = 0;
    let mut i: usize = start;
    while i < n
        invariant
            n == s@.len(),
            start <= i <= n,
            digits == s@.subrange(start as int, n as int),
            all_digits(digits.take(i - start)),
            acc as int == digits_value(digits.take(i - start)),
            acc <= limit,
            limit == 0x8000_0000_0000_0000u64,
            (s@.len() > 0 && (s@[0] == '-' || s@[0] == '+')) == (start == 1),
            negative == (s@.len() > 0 && s@[0] == '-'),
            digits == if start == 1 {
                s@.drop_first()
            } else {
                s@
            },
        decreases n - i,
    {
        let c = s.get_char(i);
        let ghost prefix = digits.take(i - start);
        let ghost next = digits.take(i + 1 - start);
        assert(next.drop_last() =~= prefix);
        assert(next.last() == c);
        let code = c as u32;
        if !(48 <= code && code <= 57) {
            assert(!all_digits(digits)) by {
                assert(digits[i - start] == c);
            }
            return None;
        }
        let d: u64 = (code - 48) as u64;
        if acc > (limit - d) / 10 {
            assert(digits_value(next) > limit);
            assert(integer_of(s@) is None) by {
                if all_digits(digits) {
                    lemma_digits_value_grows(digits, i + 1 - start);
                }
            }
            return None;
        }
        acc = acc * 10 + d;
        assert(all_digits(next)) by {
            assert forall|k: int| 0 <= k < next.len() implies is_digit(#[trigger] next[k]) by {
                if k < prefix.len() {
                    assert(next[k] == prefix[k]);
                }
            }
        }
        i = i + 1;
    }
    assert(digits.take(n - start) =~= digits);
    if negative {
        if acc == limit {
            Some(i64::MIN)
        } else {
            Some(0i64 - acc as i64)
        }
    } else if acc > i64::MAX as u64 {
        None
    } else {
        Some(acc as i64)
    }
}

/// The words of a line, split at runs of white space.
pub uninterp spec fn words_of(line: Seq<char>) -> Seq<Seq<char>>;

/// The views of a sequence of strings.
pub open spec fn string_views(v: Seq<String>) -> Seq<Seq<char>> {
    v.map_values(|s: String| s@)
}

/// Relies on `str::split_whitespace`: the words of `line`, in order; each
/// word is copied into a `String`.
#[verifier::external_body]
fn split_words(line: &str) -> (r: Vec<String>)
    ensures
        string_views(r@) == words_of(line@),
{
    line.split_whitespace().map(|w| w.to_owned()).collect()
}

/// What the words of a typed line ask for. The first word names the command;
/// `new_trans` takes a sender, a recipient and an amount, `add_peer` an
/// address, and words beyond those are ignored.
pub open spec fn input_of(words: Seq<Seq<char>>) -> InputView {
    if words.len() == 0 {
        InputView::Blank
    } else if words[0] == "new_trans"@ {
        if words.len() < 4 {
            InputView::Invalid(InputError::NotEnoughArguments)
        } else {
            match integer_of(words[3]) {
                Some(amount) => InputView::Run(CommandView::NewTrans(words[1], words[2], amount)),
                None => InputView::Invalid(InputError::IllegalAmount),
            }
        }
    } else if words[0] == "mine"@ {
        InputView::Run(CommandView::Mine)
    } else if words[0] == "list_blocks"@ {
        InputView::Run(CommandView::Display)
    } else if words[0] == "add_peer"@ {
        if words.len() < 2 {
            InputView::Invalid(InputError::NotEnoughArguments)
        } else {
            InputView::Run(CommandView::AddPeer(words[1]))
        }
    } else if words[0] == "list_peers"@ {
        InputView::Run(CommandView::DisplayPeers)
    } else if words[0] == "resolve"@ {
        InputView::Run(CommandView::Resolve)
    } else if words[0] == "help"@ {
        InputView::Help
    } else if words[0] == "exit"@ {
        InputView::Exit
    } else {
        InputView::Invalid(InputError::UnknownCommand)
    }
}

fn is_word(w: &String, keyword: &str) -> (r: bool)
    ensures
        r == (w@ == keyword@),
{
    *w == keyword.to_owned()
}

/// Reads the words of a typed line.
pub fn parse_words(words: &Vec<String>) -> (r: Input)
    ensures
        r@ == input_of(string_views(words@)),
{
    let ghost ws = string_views(words@);
    if words.len() == 0 {
        return Input::Blank;
    }
    assert(ws[0] == words@[0]@);
    let head = &words[0];
    if is_word(head, "new_trans") {
        if words.len() < 4 {
            return Input::Invalid(InputError::NotEnoughArguments);
        }
        assert(ws[1] == words@[1]@ && ws[2] == words@[2]@ && ws[3] == words@[3]@);
        match parse_integer(words[3].as_str()) {
            Some(amount) => Input::Run(
                Command::NewTrans(words[1].clone(), words[2].clone(), amount),
            ),
            None => Input::Invalid(InputError::IllegalAmount),
        }
    } else if is_word(head, "mine") {
        Input::Run(Command::Mine)
    } else if is_word(head, "list_blocks") {
        Input::Run(Command::Display)
    } else if is_word(head, "add_peer") {
        if words.len() < 2 {
            return Input::Invalid(InputError::NotEnoughArguments);
        }
        assert(ws[1] == words@[1]@);
        Input::Run(Command::AddPeer(words[1].clone()))
    } else if is_word(head, "list_peers") {
        Input::Run(Command::DisplayPeers)
    } else if is_word(head, "resolve") {
        Input::Run(Command::Resolve)
    } else if is_word(head, "help") {
        Input::Help
    } else if is_word(head, "exit") {
        Input::Exit
    } else {
        Input::Invalid(InputError::UnknownCommand)
    }
}

/// Reads a line typed by the operator.
pub fn parse_input(line: &str) -> (r: Input)
    ensures
        r@ == input_of(words_of(line@)),
{
    let words = split_words(line);
    parse_words(&words)
}

} // verus!

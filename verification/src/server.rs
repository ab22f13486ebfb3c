//! The text command protocol spoken over the WebSocket: quality presets, JSON bodies
//! addressed to a session, and the command set `a`..`l`.
//!
//! Command structure: `:` separates fields, `%` starts a comma-separated list of numbers,
//! `#` starts a JSON string that runs to the end of the message.
use vstd::prelude::*;

pub mod controller;
pub mod streamer;
pub mod viewer;

use crate::app_state::{AppState, Role, SessionId};
use crate::text::{
    chars_of, extend_chars, find_char, first_index, is_digit, lemma_digits_lack,
    lemma_first_index_unique, lemma_parse_usize_text, lemma_usize_text, parse_usize,
    spec_parse_usize, spec_usize_text, string_of, usize_text,
};

verus! {

/// The quality preset that a controller asks a streamer for.
#[derive(Debug, Clone, Copy, PartialEq, Eq, Structural, PartialOrd, Ord, Hash)]
pub enum Quality {
    High,
    Medium,
    Low,
}

/// The number that stands for a quality preset on the wire: 1 high, 2 medium, 3 low.
pub open spec fn quality_number(q: Quality) -> usize {
    match q {
        Quality::High => 1,
        Quality::Medium => 2,
        Quality::Low => 3,
    }
}

/// The preset that a number stands for, if any.
pub open spec fn spec_quality_of(n: usize) -> Option<Quality> {
    if n == 1 {
        Some(Quality::High)
    } else if n == 2 {
        Some(Quality::Medium)
    } else if n == 3 {
        Some(Quality::Low)
    } else {
        None
    }
}

/// A preset written as its decimal number.
pub open spec fn spec_parse_quality(s: Seq<char>) -> Option<Quality> {
    match spec_parse_usize(s) {
        Some(n) => spec_quality_of(n),
        None => None,
    }
}

impl Quality {
    /// The preset that `value` stands for; an error for any number but 1, 2 and 3.
    pub fn try_from(value: usize) -> (res: Result<Self, ()>)
        ensures
            res == match spec_quality_of(value) {
                Some(q) => Ok::<Quality, ()>(q),
                None => Err(()),
            },
    {
        if value == 1 {
            Ok(Quality::High)
        } else if value == 2 {
            Ok(Quality::Medium)
        } else if value == 3 {
            Ok(Quality::Low)
        } else {
            Err(())
        }
    }

    /// The number that stands for the preset.
    pub fn to_usize(self) -> (res: usize)
        ensures
            res == quality_number(self),
    {
        match self {
            Quality::High => 1,
            Quality::Medium => 2,
            Quality::Low => 3,
        }
    }

    /// The preset's number in decimal.
    pub fn to_text(self) -> (res: String)
        ensures
            res@ == spec_usize_text(quality_number(self) as nat),
    {
        let digits = usize_text(self.to_usize());
        string_of(&digits, 0, digits.len())
    }

    /// Reads a preset from its decimal number.
    pub fn parse(s: &str) -> (res: Result<Self, ()>)
        ensures
            res == match spec_parse_quality(s@) {
                Some(q) => Ok::<Quality, ()>(q),
                None => Err(()),
            },
    {
        let chars = chars_of(s);
        assert(chars@.subrange(0, chars@.len() as int) =~= s@);
        parse_quality_range(&chars, 0, chars.len())
    }
}

impl Default for Quality {
    /// High is the preset a stream starts with.
    fn default() -> (res: Self)
        ensures
            res == Quality::High,
    {
        Quality::High
    }
}

fn parse_quality_range(chars: &Vec<char>, lo: usize, hi: usize) -> (res: Result<Quality, ()>)
    requires
        lo <= hi <= chars@.len(),
    ensures
        res == match spec_parse_quality(chars@.subrange(lo as int, hi as int)) {
            Some(q) => Ok::<Quality, ()>(q),
            None => Err(()),
        },
{
    match parse_usize(chars, lo, hi) {
        Some(n) => Quality::try_from(n),
        None => Err(()),
    }
}

/// A JSON payload addressed to a session: `id:#body`.
#[derive(Debug, Clone, PartialEq, Eq)]
pub struct JSONBody {
    pub body: String,
    pub id: usize,
}

/// The content of a [`JSONBody`].
pub struct JSONBodyModel {
    pub body: Seq<char>,
    pub id: usize,
}

impl View for JSONBody {
    type V = JSONBodyModel;

    open spec fn view(&self) -> JSONBodyModel {
        JSONBodyModel { body: self.body@, id: self.id }
    }
}

/// The wire form of a JSON body: the id in decimal, `:#`, then the body.
pub open spec fn spec_json_body_text(b: JSONBodyModel) -> Seq<char> {
    spec_usize_text(b.id as nat) + seq![':', '#'] + b.body
}

/// Reads `id:#body`: the id is everything before the first `:`, and what follows that
/// `:` must start with `#`; the body is the rest, `:` included.
pub open spec fn spec_parse_json_body(s: Seq<char>) -> Option<JSONBodyModel> {
    let k = first_index(s, ':') as int;
    if k + 1 < s.len() && s[k + 1] == '#' {
        match spec_parse_usize(s.subrange(0, k)) {
            Some(id) => Some(JSONBodyModel { body: s.subrange(k + 2, s.len() as int), id }),
            None => None,
        }
    } else {
        None
    }
}

fn parse_json_body_range(chars: &Vec<char>, lo: usize, hi: usize) -> (res: Option<JSONBody>)
    requires
        lo <= hi <= chars@.len(),
    ensures
        match res {
            Some(b) => spec_parse_json_body(chars@.subrange(lo as int, hi as int)) == Some(b@),
            None => spec_parse_json_body(chars@.subrange(lo as int, hi as int)) is None,
        },
{
    let ghost s = chars@.subrange(lo as int, hi as int);
    let k = find_char(chars, lo, hi, ':');
    if k < hi && k + 1 < hi && chars[k + 1] == '#' {
        assert(s[k - lo + 1] == chars@[k + 1]);
        assert(chars@.subrange(lo as int, k as int) =~= s.subrange(0, k - lo));
        match parse_usize(chars, lo, k) {
            Some(id) => {
                let body = string_of(chars, k + 2, hi);
                assert(chars@.subrange(k + 2, hi as int) =~= s.subrange(k - lo + 2, s.len() as int));
                Some(JSONBody { body, id })
            },
            None => None,
        }
    } else {
        proof {
            if k < hi && k + 1 < hi {
                assert(s[k - lo + 1] == chars@[k + 1]);
            }
        }
        None
    }
}

impl JSONBody {
    /// The wire form `id:#body`.
    pub fn to_text(&self) -> (res: String)
        ensures
            res@ == spec_json_body_text(self@),
    {
        let mut out: Vec<char> = Vec::new();
        push_json_body(&mut out, self);
        string_of(&out, 0, out.len())
    }

    /// Reads `id:#body`.
    pub fn parse(s: &str) -> (res: Result<Self, ()>)
        ensures
            match res {
                Ok(b) => spec_parse_json_body(s@) == Some(b@),
                Err(_) => spec_parse_json_body(s@) is None,
            },
    {
        let chars = chars_of(s);
        assert(chars@.subrange(0, chars@.len() as int) =~= s@);
        match parse_json_body_range(&chars, 0, chars.len()) {
            Some(b) => Ok(b),
            None => Err(()),
        }
    }
}

fn push_json_body(out: &mut Vec<char>, b: &JSONBody)
    ensures
        final(out)@ == old(out)@ + spec_json_body_text(b@),
{
    let digits = usize_text(b.id);
    extend_chars(out, &digits);
    out.push(':');
    out.push('#');
    let body = chars_of(b.body.as_str());
    extend_chars(out, &body);
    assert(final(out)@ =~= old(out)@ + spec_json_body_text(b@));
}

/// The commands of the text protocol.
#[allow(inconsistent_fields)]
#[derive(Debug, Clone, PartialEq, Eq)]
pub enum Commands {
    /// Tell controllers to pull the streamers list.
    A,
    /// Get the streamers list.
    B,
    /// The streamers list, returned to controllers.
    C { id: Vec<usize> },
    /// A viewer asks its streamer for an offer.
    D,
    /// Tell a streamer that viewer `id` asked for an offer.
    E { id: usize },
    /// An offer, between streamer and viewer.
    F(JSONBody),
    /// An ICE candidate from a streamer to a viewer.
    G(JSONBody),
    /// An ICE candidate from a viewer to a streamer.
    H(JSONBody),
    /// A controller asks streamer `id` for a quality preset.
    I { id: usize, quality: Quality },
    /// A video transformation, broadcast to viewers and controllers.
    J { body: String },
    /// Streamer `id` disconnected.
    K { id: usize },
    /// A streamer is told its own session id.
    L { id: usize },
}

/// The content of a [`Commands`] value.
#[allow(inconsistent_fields)]
pub enum CommandModel {
    A,
    B,
    C { ids: Seq<usize> },
    D,
    E { id: usize },
    F { body: JSONBodyModel },
    G { body: JSONBodyModel },
    H { body: JSONBodyModel },
    I { id: usize, quality: Quality },
    J { body: Seq<char> },
    K { id: usize },
    L { id: usize },
}

impl View for Commands {
    type V = CommandModel;

    open spec fn view(&self) -> CommandModel {
        match self {
            Commands::A => CommandModel::A,
            Commands::B => CommandModel::B,
            Commands::C { id } => CommandModel::C { ids: id@ },
            Commands::D => CommandModel::D,
            Commands::E { id } => CommandModel::E { id: *id },
            Commands::F(b) => CommandModel::F { body: b@ },
            Commands::G(b) => CommandModel::G { body: b@ },
            Commands::H(b) => CommandModel::H { body: b@ },
            Commands::I { id, quality } => CommandModel::I { id: *id, quality: *quality },
            Commands::J { body } => CommandModel::J { body: body@ },
            Commands::K { id } => CommandModel::K { id: *id },
            Commands::L { id } => CommandModel::L { id: *id },
        }
    }
}

/// Numbers in decimal, separated by commas.
pub open spec fn spec_id_list_text(ids: Seq<usize>) -> Seq<char>
    decreases ids.len(),
{
    if ids.len() == 0 {
        Seq::empty()
    } else if ids.len() == 1 {
        spec_usize_text(ids[0] as nat)
    } else {
        spec_usize_text(ids[0] as nat) + seq![','] + spec_id_list_text(ids.drop_first())
    }
}

/// Reads numbers separated by commas; every field, the first and the last included,
/// must be a number.
pub open spec fn spec_parse_id_list(s: Seq<char>) -> Option<Seq<usize>>
    decreases s.len(),
{
    let k = first_index(s, ',') as int;
    if k < s.len() {
        match spec_parse_usize(s.subrange(0, k)) {
            Some(v) => match spec_parse_id_list(s.subrange(k + 1, s.len() as int)) {
                Some(rest) => Some(seq![v] + rest),
                None => None,
            },
            None => None,
        }
    } else {
        match spec_parse_usize(s) {
            Some(v) => Some(seq![v]),
            None => None,
        }
    }
}

/// What a command is written as on the wire.
pub open spec fn spec_command_text(c: CommandModel) -> Seq<char> {
    match c {
        CommandModel::A => seq!['a'],
        CommandModel::B => seq!['b'],
        CommandModel::C { ids } => seq!['c', ':', '%'] + spec_id_list_text(ids),
        CommandModel::D => seq!['d'],
        CommandModel::E { id } => seq!['e', ':'] + spec_usize_text(id as nat),
        CommandModel::F { body } => seq!['f', ':'] + spec_json_body_text(body),
        CommandModel::G { body } => seq!['g', ':'] + spec_json_body_text(body),
        CommandModel::H { body } => seq!['h', ':'] + spec_json_body_text(body),
        CommandModel::I { id, quality } => seq!['i', ':'] + spec_usize_text(id as nat) + seq![':']
            + spec_usize_text(quality_number(quality) as nat),
        CommandModel::J { body } => seq!['j', ':', '#'] + body,
        CommandModel::K { id } => seq!['k', ':'] + spec_usize_text(id as nat),
        CommandModel::L { id } => seq!['l', ':'] + spec_usize_text(id as nat),
    }
}

/// The arguments of `i`: the id before the first `:`, the preset up to the next `:`.
pub open spec fn spec_parse_quality_request(rest: Seq<char>) -> Option<CommandModel> {
    let k = first_index(rest, ':') as int;
    if k < rest.len() {
        let after = rest.subrange(k + 1, rest.len() as int);
        let q = after.subrange(0, first_index(after, ':') as int);
        match (spec_parse_usize(rest.subrange(0, k)), spec_parse_quality(q)) {
            (Some(id), Some(quality)) => Some(CommandModel::I { id, quality }),
            _ => None,
        }
    } else {
        None
    }
}

/// Reads a command: its letter comes first, the character after it is skipped, and the
/// arguments are the rest.
pub open spec fn spec_parse_command(s: Seq<char>) -> Option<CommandModel> {
    if s.len() == 0 {
        None
    } else {
        let cmd = s[0];
        let rest = if s.len() >= 2 {
            s.subrange(2, s.len() as int)
        } else {
            Seq::empty()
        };
        if cmd == 'a' {
            Some(CommandModel::A)
        } else if cmd == 'b' {
            Some(CommandModel::B)
        } else if cmd == 'd' {
            Some(CommandModel::D)
        } else if cmd == 'e' || cmd == 'k' || cmd == 'l' {
            match spec_parse_usize(rest) {
                Some(id) => Some(
                    if cmd == 'e' {
                        CommandModel::E { id }
                    } else if cmd == 'l' {
                        CommandModel::L { id }
                    } else {
                        CommandModel::K { id }
                    },
                ),
                None => None,
            }
        } else if cmd == 'f' || cmd == 'g' || cmd == 'h' {
            match spec_parse_json_body(rest) {
                Some(body) => Some(
                    if cmd == 'f' {
                        CommandModel::F { body }
                    } else if cmd == 'g' {
                        CommandModel::G { body }
                    } else {
                        CommandModel::H { body }
                    },
                ),
                None => None,
            }
        } else if cmd == 'i' {
            spec_parse_quality_request(rest)
        } else if cmd == 'j' {
            if rest.len() > 0 && rest[0] == '#' {
                Some(CommandModel::J { body: rest.drop_first() })
            } else {
                None
            }
        } else if cmd == 'c' {
            if rest.len() > 0 && rest[0] == '%' {
                match spec_parse_id_list(rest.drop_first()) {
                    Some(ids) => Some(CommandModel::C { ids }),
                    None => None,
                }
            } else {
                None
            }
        } else {
            None
        }
    }
}

fn parse_id_list_range(chars: &Vec<char>, lo: usize, hi: usize) -> (res: Option<Vec<usize>>)
    requires
        lo <= hi <= chars@.len(),
    ensures
        match res {
            Some(ids) => spec_parse_id_list(chars@.subrange(lo as int, hi as int)) == Some(ids@),
            None => spec_parse_id_list(chars@.subrange(lo as int, hi as int)) is None,
        },
{
    let mut ids: Vec<usize> = Vec::new();
    let mut pos = lo;
    loop
        invariant
            lo <= pos <= hi <= chars@.len(),
            spec_parse_id_list(chars@.subrange(lo as int, hi as int)) == match spec_parse_id_list(
                chars@.subrange(pos as int, hi as int),
            ) {
                Some(r) => Some(ids@ + r),
                None => None::<Seq<usize>>,
            },
        decreases hi - pos,
    {
        let ghost t = chars@.subrange(pos as int, hi as int);
        let k = find_char(chars, pos, hi, ',');
        assert(chars@.subrange(pos as int, k as int) =~= t.subrange(0, k - pos));
        match parse_usize(chars, pos, k) {
            Some(v) => {
                if k < hi {
                    assert(chars@.subrange(k + 1, hi as int) =~= t.subrange(
                        k - pos + 1,
                        t.len() as int,
                    ));
                    let ghost before = ids@;
                    ids.push(v);
                    proof {
                        let r = spec_parse_id_list(chars@.subrange(k + 1, hi as int));
                        if let Some(r) = r {
                            assert(ids@ + r =~= before + (seq![v] + r));
                        }
                    }
                    pos = k + 1;
                } else {
                    assert(chars@.subrange(pos as int, k as int) =~= t);
                    ids.push(v);
                    return Some(ids);
                }
            },
            None => {
                return None;
            },
        }
    }
}

fn push_id_list(out: &mut Vec<char>, ids: &Vec<usize>)
    ensures
        final(out)@ == old(out)@ + spec_id_list_text(ids@),
{
    let mut i: usize = 0;
    while i < ids.len()
        invariant
            i <= ids@.len(),
            out@ == old(out)@ + spec_id_list_text(ids@.take(i as int)),
        decreases ids@.len() - i,
    {
        if i > 0 {
            out.push(',');
            proof {
                lemma_id_list_text_push(ids@.take(i as int), ids@[i as int]);
                assert(ids@.take(i as int).push(ids@[i as int]) =~= ids@.take(i + 1));
            }
        } else {
            assert(ids@.take(1) =~= seq![ids@[0]]);
        }
        let digits = usize_text(ids[i]);
        extend_chars(out, &digits);
        assert(out@ =~= old(out)@ + spec_id_list_text(ids@.take(i + 1)));
        i = i + 1;
    }
    assert(ids@.take(i as int) =~= ids@);
}

proof fn lemma_id_list_text_push(ids: Seq<usize>, x: usize)
    requires
        ids.len() >= 1,
    ensures
        spec_id_list_text(ids.push(x)) == spec_id_list_text(ids) + seq![','] + spec_usize_text(
            x as nat,
        ),
    decreases ids.len(),
{
    if ids.len() == 1 {
        assert(ids.push(x).drop_first() =~= seq![x]);
        assert(ids.push(x)[0] == ids[0]);
        assert(spec_id_list_text(seq![x]) == spec_usize_text(x as nat));
        assert(spec_id_list_text(ids.push(x)) =~= spec_id_list_text(ids) + seq![',']
            + spec_usize_text(x as nat));
    } else {
        lemma_id_list_text_push(ids.drop_first(), x);
        assert(ids.push(x).drop_first() =~= ids.drop_first().push(x));
        assert(spec_id_list_text(ids.push(x)) =~= spec_id_list_text(ids) + seq![',']
            + spec_usize_text(x as nat));
    }
}

impl Commands {
    /// Reads a command from its wire form.
    pub fn parse(s: &str) -> (res: Result<Self, ()>)
        ensures
            match res {
                Ok(c) => spec_parse_command(s@) == Some(c@),
                Err(_) => spec_parse_command(s@) is None,
            },
    {
        let chars = chars_of(s);
        let n = chars.len();
        if n == 0 {
            return Err(());
        }
        let cmd = chars[0];
        let lo: usize = if n >= 2 {
            2
        } else {
            n
        };
        let ghost rest = if s@.len() >= 2 {
            s@.subrange(2, s@.len() as int)
        } else {
            Seq::<char>::empty()
        };
        assert(chars@.subrange(lo as int, n as int) =~= rest);
        if cmd == 'a' {
            Ok(Commands::A)
        } else if cmd == 'b' {
            Ok(Commands::B)
        } else if cmd == 'd' {
            Ok(Commands::D)
        } else if cmd == 'e' || cmd == 'k' || cmd == 'l' {
            match parse_usize(&chars, lo, n) {
                Some(id) => {
                    if cmd == 'e' {
                        Ok(Commands::E { id })
                    } else if cmd == 'l' {
                        Ok(Commands::L { id })
                    } else {
                        Ok(Commands::K { id })
                    }
                },
                None => Err(()),
            }
        } else if cmd == 'f' || cmd == 'g' || cmd == 'h' {
            match parse_json_body_range(&chars, lo, n) {
                Some(body) => {
                    if cmd == 'f' {
                        Ok(Commands::F(body))
                    } else if cmd == 'g' {
                        Ok(Commands::G(body))
                    } else {
                        Ok(Commands::H(body))
                    }
                },
                None => Err(()),
            }
        } else if cmd == 'i' {
            let k = find_char(&chars, lo, n, ':');
            if k < n {
                let k2 = find_char(&chars, k + 1, n, ':');
                assert(chars@.subrange(lo as int, k as int) =~= rest.subrange(0, k - lo));
                assert(chars@.subrange(k + 1, n as int) =~= rest.subrange(
                    k - lo + 1,
                    rest.len() as int,
                ));
                assert(chars@.subrange(k + 1, k2 as int) =~= chars@.subrange(
                    k + 1,
                    n as int,
                ).subrange(0, k2 - k - 1));
                let id = parse_usize(&chars, lo, k);
                let quality = parse_quality_range(&chars, k + 1, k2);
                match (id, quality) {
                    (Some(id), Ok(quality)) => Ok(Commands::I { id, quality }),
                    _ => Err(()),
                }
            } else {
                Err(())
            }
        } else if cmd == 'j' {
            if lo < n && chars[lo] == '#' {
                assert(chars@.subrange(lo + 1, n as int) =~= rest.drop_first());
                Ok(Commands::J { body: string_of(&chars, lo + 1, n) })
            } else {
                Err(())
            }
        } else if cmd == 'c' {
            if lo < n && chars[lo] == '%' {
                assert(chars@.subrange(lo + 1, n as int) =~= rest.drop_first());
                match parse_id_list_range(&chars, lo + 1, n) {
                    Some(ids) => Ok(Commands::C { id: ids }),
                    None => Err(()),
                }
            } else {
                Err(())
            }
        } else {
            Err(())
        }
    }

    /// The wire form of the command.
    pub fn to_text(&self) -> (res: String)
        ensures
            res@ == spec_command_text(self@),
    {
        let mut out: Vec<char> = Vec::new();
        match self {
            Commands::A => {
                out.push('a');
            },
            Commands::B => {
                out.push('b');
            },
            Commands::D => {
                out.push('d');
            },
            Commands::E { id } => {
                out.push('e');
                out.push(':');
                let digits = usize_text(*id);
                extend_chars(&mut out, &digits);
            },
            Commands::K { id } => {
                out.push('k');
                out.push(':');
                let digits = usize_text(*id);
                extend_chars(&mut out, &digits);
            },
            Commands::L { id } => {
                out.push('l');
                out.push(':');
                let digits = usize_text(*id);
                extend_chars(&mut out, &digits);
            },
            Commands::F(body) => {
                out.push('f');
                out.push(':');
                push_json_body(&mut out, body);
            },
            Commands::G(body) => {
                out.push('g');
                out.push(':');
                push_json_body(&mut out, body);
            },
            Commands::H(body) => {
                out.push('h');
                out.push(':');
                push_json_body(&mut out, body);
            },
            Commands::I { id, quality } => {
                out.push('i');
                out.push(':');
                let digits = usize_text(*id);
                extend_chars(&mut out, &digits);
                out.push(':');
                let q = usize_text(quality.to_usize());
                extend_chars(&mut out, &q);
            },
            Commands::J { body } => {
                out.push('j');
                out.push(':');
                out.push('#');
                let b = chars_of(body.as_str());
                extend_chars(&mut out, &b);
            },
            Commands::C { id } => {
                out.push('c');
                out.push(':');
                out.push('%');
                push_id_list(&mut out, id);
            },
        }
        assert(out@ =~= spec_command_text(self@));
        string_of(&out, 0, out.len())
    }
}

/// Every command can be written, except a streamers list with no streamer in it: its
/// wire form `c:%` has one empty field, which is no number.
pub open spec fn command_round_trips(c: CommandModel) -> bool {
    match c {
        CommandModel::C { ids } => ids.len() > 0,
        _ => true,
    }
}

/// A number followed by a separator and more text splits at that separator.
proof fn lemma_number_then(n: usize, sep: char, x: Seq<char>)
    requires
        !is_digit(sep),
    ensures
        ({
            let num = spec_usize_text(n as nat);
            let t = num + seq![sep] + x;
            &&& first_index(t, sep) == num.len()
            &&& t.subrange(0, num.len() as int) == num
            &&& t.subrange(num.len() as int + 1, t.len() as int) == x
            &&& t[num.len() as int] == sep
        }),
{
    let num = spec_usize_text(n as nat);
    let t = num + seq![sep] + x;
    lemma_usize_text(n as nat);
    lemma_digits_lack(num, sep);
    assert forall|j: int| 0 <= j < num.len() implies t[j] != sep by {
        assert(t[j] == num[j]);
    }
    lemma_first_index_unique(t, sep, num.len());
    assert(t.subrange(0, num.len() as int) =~= num);
    assert(t.subrange(num.len() as int + 1, t.len() as int) =~= x);
}

/// A number on its own holds no separator.
proof fn lemma_number_alone(n: usize, sep: char)
    requires
        !is_digit(sep),
    ensures
        first_index(spec_usize_text(n as nat), sep) == spec_usize_text(n as nat).len(),
{
    let num = spec_usize_text(n as nat);
    lemma_usize_text(n as nat);
    lemma_digits_lack(num, sep);
    lemma_first_index_unique(num, sep, num.len());
}

/// Reading the wire form of a JSON body gives the body back.
pub proof fn lemma_json_body_round_trip(b: JSONBodyModel)
    ensures
        spec_parse_json_body(spec_json_body_text(b)) == Some(b),
{
    let num = spec_usize_text(b.id as nat);
    let x = seq!['#'] + b.body;
    assert(spec_json_body_text(b) =~= num + seq![':'] + x);
    lemma_number_then(b.id, ':', x);
    lemma_parse_usize_text(b.id);
    let t = num + seq![':'] + x;
    assert(t[num.len() as int + 1] == '#');
    assert(t.subrange(num.len() as int + 2, t.len() as int) =~= b.body);
}

/// Reading the wire form of a quality preset gives the preset back.
pub proof fn lemma_quality_round_trip(q: Quality)
    ensures
        spec_parse_quality(spec_usize_text(quality_number(q) as nat)) == Some(q),
{
    lemma_parse_usize_text(quality_number(q));
}

/// Reading a nonempty list of numbers written with commas gives the list back.
pub proof fn lemma_id_list_round_trip(ids: Seq<usize>)
    requires
        ids.len() > 0,
    ensures
        spec_parse_id_list(spec_id_list_text(ids)) == Some(ids),
    decreases ids.len(),
{
    lemma_parse_usize_text(ids[0]);
    if ids.len() == 1 {
        lemma_number_alone(ids[0], ',');
        assert(seq![ids[0]] =~= ids);
    } else {
        let rest = spec_id_list_text(ids.drop_first());
        lemma_number_then(ids[0], ',', rest);
        lemma_id_list_round_trip(ids.drop_first());
        assert(seq![ids[0]] + ids.drop_first() =~= ids);
    }
}

proof fn lemma_round_trip_number(c: CommandModel)
    requires
        c is E || c is K || c is L,
    ensures
        spec_parse_command(spec_command_text(c)) == Some(c),
{
    let s = spec_command_text(c);
    let id = match c {
        CommandModel::E { id } => id,
        CommandModel::K { id } => id,
        CommandModel::L { id } => id,
        _ => 0,
    };
    lemma_parse_usize_text(id);
    assert(s.subrange(2, s.len() as int) =~= spec_usize_text(id as nat));
}

proof fn lemma_round_trip_body(c: CommandModel)
    requires
        c is F || c is G || c is H,
    ensures
        spec_parse_command(spec_command_text(c)) == Some(c),
{
    let s = spec_command_text(c);
    let body = match c {
        CommandModel::F { body } => body,
        CommandModel::G { body } => body,
        CommandModel::H { body } => body,
        _ => JSONBodyModel { body: Seq::empty(), id: 0 },
    };
    lemma_json_body_round_trip(body);
    assert(s.subrange(2, s.len() as int) =~= spec_json_body_text(body));
}

proof fn lemma_round_trip_quality_request(id: usize, quality: Quality)
    ensures
        spec_parse_command(spec_command_text(CommandModel::I { id, quality })) == Some(
            CommandModel::I { id, quality },
        ),
{
    let s = spec_command_text(CommandModel::I { id, quality });
    let qt = spec_usize_text(quality_number(quality) as nat);
    let rest = spec_usize_text(id as nat) + seq![':'] + qt;
    assert(s.subrange(2, s.len() as int) =~= rest);
    lemma_number_then(id, ':', qt);
    lemma_parse_usize_text(id);
    lemma_number_alone(quality_number(quality), ':');
    assert(qt.subrange(0, qt.len() as int) =~= qt);
    lemma_quality_round_trip(quality);
    assert(spec_parse_quality_request(rest) == Some(CommandModel::I { id, quality }));
}

proof fn lemma_round_trip_broadcast(body: Seq<char>)
    ensures
        spec_parse_command(spec_command_text(CommandModel::J { body })) == Some(
            CommandModel::J { body },
        ),
{
    let s = spec_command_text(CommandModel::J { body });
    let rest = s.subrange(2, s.len() as int);
    assert(rest =~= seq!['#'] + body);
    assert(rest.drop_first() =~= body);
}

proof fn lemma_round_trip_list(ids: Seq<usize>)
    requires
        ids.len() > 0,
    ensures
        spec_parse_command(spec_command_text(CommandModel::C { ids })) == Some(
            CommandModel::C { ids },
        ),
{
    let s = spec_command_text(CommandModel::C { ids });
    let rest = s.subrange(2, s.len() as int);
    assert(rest =~= seq!['%'] + spec_id_list_text(ids));
    assert(rest.drop_first() =~= spec_id_list_text(ids));
    lemma_id_list_round_trip(ids);
}

/// Writing a command and reading it back gives the same command, for every command that
/// can be written (see [`command_round_trips`]).
pub proof fn lemma_command_round_trip(c: CommandModel)
    requires
        command_round_trips(c),
    ensures
        spec_parse_command(spec_command_text(c)) == Some(c),
{
    match c {
        CommandModel::A => {},
        CommandModel::B => {},
        CommandModel::D => {},
        CommandModel::E { .. } => lemma_round_trip_number(c),
        CommandModel::K { .. } => lemma_round_trip_number(c),
        CommandModel::L { .. } => lemma_round_trip_number(c),
        CommandModel::F { .. } => lemma_round_trip_body(c),
        CommandModel::G { .. } => lemma_round_trip_body(c),
        CommandModel::H { .. } => lemma_round_trip_body(c),
        CommandModel::I { id, quality } => lemma_round_trip_quality_request(id, quality),
        CommandModel::J { body } => lemma_round_trip_broadcast(body),
        CommandModel::C { ids } => lemma_round_trip_list(ids),
    }
}

/// Why a message led to nothing being sent.
#[derive(Debug, Clone, Copy, PartialEq, Eq, Structural)]
pub enum Warning {
    /// The message is no command.
    InvalidCommand,
    /// A viewer asked for its streamer but watches none, or one that is gone.
    NotWatching,
    /// A client that is no connected viewer asked for a streamer.
    NotAViewer,
    /// An offer was addressed to a viewer that is not connected.
    OfferToNoOne,
    /// An ICE candidate was addressed to a session that is not connected.
    CandidateToNoOne,
    /// A quality request was addressed to a streamer that is not connected.
    QualityRequestToNoOne,
}

/// What handling a text message asks of the connection layer.
#[derive(Debug, Clone, PartialEq, Eq)]
pub enum Reply {
    /// Send `text` back to the session the message came from.
    SendBack { text: String },
    /// Send `text` to the session `to`.
    Send { to: SessionId, text: String },
    /// Send `text` to every controller and every viewer.
    Broadcast { text: String },
    /// Send nothing, and warn.
    Warn { warning: Warning },
}

/// The content of a [`Reply`].
pub enum ReplyModel {
    SendBack { text: Seq<char> },
    Send { role: Role, index: usize, text: Seq<char> },
    Broadcast { text: Seq<char> },
    Warn { warning: Warning },
}

impl View for Reply {
    type V = ReplyModel;

    open spec fn view(&self) -> ReplyModel {
        match self {
            Reply::SendBack { text } => ReplyModel::SendBack { text: text@ },
            Reply::Send { to, text } => ReplyModel::Send {
                role: to.spec_role(),
                index: to.spec_index(),
                text: text@,
            },
            Reply::Broadcast { text } => ReplyModel::Broadcast { text: text@ },
            Reply::Warn { warning } => ReplyModel::Warn { warning: *warning },
        }
    }
}

/// The contents of a list of replies.
pub open spec fn replies_view(v: Seq<Reply>) -> Seq<ReplyModel> {
    v.map_values(|r: Reply| r@)
}

/// A body of `f`, `g` or `h`, now addressed from `from`.
pub open spec fn readdressed(body: JSONBodyModel, from: usize) -> JSONBodyModel {
    JSONBodyModel { body: body.body, id: from }
}

/// What the server does with command `command` from session `sid`:
/// - `b`: the ids of all streamers go back as `c`;
/// - `d` from a viewer: its streamer is told `e` with the viewer's index;
/// - `f` and `g` go to viewer `id`, `h` to streamer `id`, each with `id` replaced by the
///   sender's index;
/// - `i` goes as it is to streamer `id`;
/// - `j` goes as it is to every controller and viewer;
/// - any other command is ignored.
pub open spec fn spec_command_reply<S>(
    app: AppState<S>,
    sid: SessionId,
    command: CommandModel,
) -> Option<ReplyModel> {
    match command {
        CommandModel::B => Some(
            ReplyModel::SendBack {
                text: spec_command_text(
                    CommandModel::C {
                        ids: app.streamer_entries().map_values(
                            |e: (usize, crate::app_state::StreamerData<S>)| e.0,
                        ),
                    },
                ),
            },
        ),
        CommandModel::D => Some(spec_offer_request_reply(app, sid)),
        CommandModel::F { body } => Some(
            if app.viewers().contains_key(body.id) {
                ReplyModel::Send {
                    role: Role::Viewer,
                    index: body.id,
                    text: spec_command_text(
                        CommandModel::F { body: readdressed(body, sid.spec_index()) },
                    ),
                }
            } else {
                ReplyModel::Warn { warning: Warning::OfferToNoOne }
            },
        ),
        CommandModel::G { body } => Some(
            if app.viewers().contains_key(body.id) {
                ReplyModel::Send {
                    role: Role::Viewer,
                    index: body.id,
                    text: spec_command_text(
                        CommandModel::G { body: readdressed(body, sid.spec_index()) },
                    ),
                }
            } else {
                ReplyModel::Warn { warning: Warning::CandidateToNoOne }
            },
        ),
        CommandModel::H { body } => Some(
            if app.streamers().contains_key(body.id) {
                ReplyModel::Send {
                    role: Role::Streamer,
                    index: body.id,
                    text: spec_command_text(
                        CommandModel::H { body: readdressed(body, sid.spec_index()) },
                    ),
                }
            } else {
                ReplyModel::Warn { warning: Warning::CandidateToNoOne }
            },
        ),
        CommandModel::I { id, quality } => Some(
            if app.streamers().contains_key(id) {
                ReplyModel::Send {
                    role: Role::Streamer,
                    index: id,
                    text: spec_command_text(CommandModel::I { id, quality }),
                }
            } else {
                ReplyModel::Warn { warning: Warning::QualityRequestToNoOne }
            },
        ),
        CommandModel::J { body } => Some(
            ReplyModel::Broadcast { text: spec_command_text(CommandModel::J { body }) },
        ),
        _ => None,
    }
}

/// A viewer's `d`: its streamer is told `e` with the viewer's index.
pub open spec fn spec_offer_request_reply<S>(app: AppState<S>, sid: SessionId) -> ReplyModel {
    if sid.spec_role() == Role::Viewer && app.viewers().contains_key(sid.spec_index()) {
        match app.viewers()[sid.spec_index()].watching {
            Some(s) => if app.streamers().contains_key(s) {
                ReplyModel::Send {
                    role: Role::Streamer,
                    index: s,
                    text: spec_command_text(CommandModel::E { id: sid.spec_index() }),
                }
            } else {
                ReplyModel::Warn { warning: Warning::NotWatching }
            },
            None => ReplyModel::Warn { warning: Warning::NotWatching },
        }
    } else {
        ReplyModel::Warn { warning: Warning::NotAViewer }
    }
}

/// What the server does with a text message: a message that is no command is warned
/// about, a command is handled as [`spec_command_reply`] says.
pub open spec fn spec_message_replies<S>(
    app: AppState<S>,
    sid: SessionId,
    content: Seq<char>,
) -> Seq<ReplyModel> {
    match spec_parse_command(content) {
        None => seq![ReplyModel::Warn { warning: Warning::InvalidCommand }],
        Some(command) => match spec_command_reply(app, sid, command) {
            Some(r) => seq![r],
            None => Seq::empty(),
        },
    }
}

fn offer_request_reply<S>(app_state: &AppState<S>, session_id: SessionId) -> (res: Reply)
    requires
        app_state.wf(),
    ensures
        res@ == spec_offer_request_reply(*app_state, session_id),
{
    match session_id.as_viewer() {
        Some(viewer_index) => match app_state.get_streamer_session_from_viewer(viewer_index) {
            Some(Some(_)) => match app_state.get_viewer_watching(viewer_index) {
                Some(streamer) => {
                    let text = Commands::E { id: viewer_index }.to_text();
                    Reply::Send { to: SessionId::new(Role::Streamer, streamer), text }
                },
                None => Reply::Warn { warning: Warning::NotWatching },
            },
            Some(None) => Reply::Warn { warning: Warning::NotWatching },
            None => Reply::Warn { warning: Warning::NotAViewer },
        },
        None => Reply::Warn { warning: Warning::NotAViewer },
    }
}

fn forward_reply<S>(app_state: &AppState<S>, session_id: SessionId, command: Commands) -> (res: Option<Reply>)
    requires
        app_state.wf(),
        command is F || command is G || command is H || command is I,
    ensures
        match res {
            Some(r) => spec_command_reply(*app_state, session_id, command@) == Some(r@),
            None => false,
        },
{
    match command {
        Commands::F(data) => {
            let to = SessionId::new(Role::Viewer, data.id);
            if app_state.get_session(to).is_some() {
                let text = Commands::F(JSONBody { body: data.body, id: session_id.index() }).to_text();
                Some(Reply::Send { to, text })
            } else {
                Some(Reply::Warn { warning: Warning::OfferToNoOne })
            }
        },
        Commands::G(data) => {
            let to = SessionId::new(Role::Viewer, data.id);
            if app_state.get_session(to).is_some() {
                let text = Commands::G(JSONBody { body: data.body, id: session_id.index() }).to_text();
                Some(Reply::Send { to, text })
            } else {
                Some(Reply::Warn { warning: Warning::CandidateToNoOne })
            }
        },
        Commands::H(data) => {
            let to = SessionId::new(Role::Streamer, data.id);
            if app_state.get_session(to).is_some() {
                let text = Commands::H(JSONBody { body: data.body, id: session_id.index() }).to_text();
                Some(Reply::Send { to, text })
            } else {
                Some(Reply::Warn { warning: Warning::CandidateToNoOne })
            }
        },
        Commands::I { id, quality } => {
            let to = SessionId::new(Role::Streamer, id);
            if app_state.get_session(to).is_some() {
                let text = Commands::I { id, quality }.to_text();
                Some(Reply::Send { to, text })
            } else {
                Some(Reply::Warn { warning: Warning::QualityRequestToNoOne })
            }
        },
        _ => None,
    }
}

fn command_reply<S>(app_state: &AppState<S>, session_id: SessionId, command: Commands) -> (res: Option<Reply>)
    requires
        app_state.wf(),
    ensures
        match res {
            Some(r) => spec_command_reply(*app_state, session_id, command@) == Some(r@),
            None => spec_command_reply(*app_state, session_id, command@) is None,
        },
{
    match command {
        Commands::B => {
            let ids = app_state.get_all_streamers_id();
            let text = Commands::C { id: ids }.to_text();
            Some(Reply::SendBack { text })
        },
        Commands::D => Some(offer_request_reply(app_state, session_id)),
        Commands::J { body } => {
            let text = Commands::J { body }.to_text();
            Some(Reply::Broadcast { text })
        },
        Commands::F(_) | Commands::G(_) | Commands::H(_) | Commands::I { .. } => forward_reply(
            app_state,
            session_id,
            command,
        ),
        _ => None,
    }
}

/// Decides what to do with the text message `content` from session `session_id`.
pub fn message_handler<S>(app_state: &AppState<S>, session_id: SessionId, content: &str) -> (res: Vec<Reply>)
    requires
        app_state.wf(),
    ensures
        replies_view(res@) == spec_message_replies(*app_state, session_id, content@),
{
    let mut res: Vec<Reply> = Vec::new();
    match Commands::parse(content) {
        Ok(command) => {
            if let Some(r) = command_reply(app_state, session_id, command) {
                res.push(r);
            }
        },
        Err(_) => {
            res.push(Reply::Warn { warning: Warning::InvalidCommand });
        },
    }
    assert(replies_view(res@) =~= spec_message_replies(*app_state, session_id, content@));
    res
}

/// What a new connection of session `sid` leads to: a streamer is told its id with `l`,
/// and every controller and viewer is told with `a` to pull the streamers list.
pub open spec fn spec_connect_replies(sid: SessionId) -> Seq<ReplyModel> {
    if sid.spec_role() == Role::Streamer {
        seq![
            ReplyModel::SendBack { text: spec_command_text(CommandModel::L { id: sid.spec_index() }) },
            ReplyModel::Broadcast { text: spec_command_text(CommandModel::A) },
        ]
    } else {
        Seq::empty()
    }
}

/// Decides what to send when session `session_id` connects.
pub fn connect_replies(session_id: SessionId) -> (res: Vec<Reply>)
    ensures
        replies_view(res@) == spec_connect_replies(session_id),
{
    let mut res: Vec<Reply> = Vec::new();
    if session_id.role() == Role::Streamer {
        let own = Commands::L { id: session_id.index() }.to_text();
        res.push(Reply::SendBack { text: own });
        let all = Commands::A.to_text();
        res.push(Reply::Broadcast { text: all });
    }
    assert(replies_view(res@) =~= spec_connect_replies(session_id));
    res
}

/// What the closing of session `sid` leads to: when a streamer leaves, every controller
/// and viewer is told with `k`.
pub open spec fn spec_close_replies(sid: SessionId) -> Seq<ReplyModel> {
    if sid.spec_role() == Role::Streamer {
        seq![
            ReplyModel::Broadcast { text: spec_command_text(CommandModel::K { id: sid.spec_index() }) },
        ]
    } else {
        Seq::empty()
    }
}

/// Decides what to send when session `session_id` closes.
pub fn close_replies(session_id: SessionId) -> (res: Vec<Reply>)
    ensures
        replies_view(res@) == spec_close_replies(session_id),
{
    let mut res: Vec<Reply> = Vec::new();
    if session_id.role() == Role::Streamer {
        let text = Commands::K { id: session_id.index() }.to_text();
        res.push(Reply::Broadcast { text });
    }
    assert(replies_view(res@) =~= spec_close_replies(session_id));
    res
}

/// The text of a reply that sends one.
pub open spec fn reply_text(r: ReplyModel) -> Option<Seq<char>> {
    match r {
        ReplyModel::SendBack { text } => Some(text),
        ReplyModel::Send { text, .. } => Some(text),
        ReplyModel::Broadcast { text } => Some(text),
        ReplyModel::Warn { .. } => None,
    }
}

/// A message is only ever sent on to a connected session: a streamer or viewer that the
/// state holds.
pub proof fn lemma_replies_reach_connected_sessions<S>(
    app: AppState<S>,
    sid: SessionId,
    content: Seq<char>,
)
    ensures
        forall|k: int|
            0 <= k < spec_message_replies(app, sid, content).len() ==> match #[trigger] spec_message_replies(
                app,
                sid,
                content,
            )[k] {
                ReplyModel::Send { role, index, .. } => (role == Role::Streamer
                    && app.streamers().contains_key(index)) || (role == Role::Viewer
                    && app.viewers().contains_key(index)),
                _ => true,
            },
{
}

/// Every text that handling a message sends reads back as a command, but for the streamers
/// list while no streamer is connected (its wire form `c:%` holds no number).
pub proof fn lemma_reply_texts_read_back<S>(app: AppState<S>, sid: SessionId, content: Seq<char>)
    requires
        app.wf(),
    ensures
        forall|k: int|
            0 <= k < spec_message_replies(app, sid, content).len() ==> match reply_text(
                #[trigger] spec_message_replies(app, sid, content)[k],
            ) {
                Some(t) => spec_parse_command(t) is Some || (spec_parse_command(content) == Some(
                    CommandModel::B,
                ) && app.streamers().dom().is_empty()),
                None => true,
            },
{
    let replies = spec_message_replies(app, sid, content);
    if let Some(command) = spec_parse_command(content) {
        match command {
            CommandModel::B => {
                let ids = app.streamer_entries().map_values(
                    |e: (usize, crate::app_state::StreamerData<S>)| e.0,
                );
                if !app.streamers().dom().is_empty() {
                    app.lemma_entries_in_key_order();
                    let i = app.streamers().dom().choose();
                    assert(app.streamers().contains_key(i));
                    assert(ids.len() > 0);
                    lemma_command_round_trip(CommandModel::C { ids });
                }
            },
            CommandModel::D => {
                if let ReplyModel::Send { index, .. } = spec_offer_request_reply(app, sid) {
                    lemma_command_round_trip(CommandModel::E { id: sid.spec_index() });
                }
            },
            CommandModel::F { body } => {
                lemma_command_round_trip(CommandModel::F { body: readdressed(body, sid.spec_index()) });
            },
            CommandModel::G { body } => {
                lemma_command_round_trip(CommandModel::G { body: readdressed(body, sid.spec_index()) });
            },
            CommandModel::H { body } => {
                lemma_command_round_trip(CommandModel::H { body: readdressed(body, sid.spec_index()) });
            },
            CommandModel::I { id, quality } => {
                lemma_command_round_trip(CommandModel::I { id, quality });
            },
            CommandModel::J { body } => {
                lemma_command_round_trip(CommandModel::J { body });
            },
            _ => {},
        }
    }
}

/// What connecting and closing send reads back as commands.
pub proof fn lemma_connect_close_texts_read_back(sid: SessionId)
    ensures
        forall|k: int|
            0 <= k < spec_connect_replies(sid).len() ==> match reply_text(
                #[trigger] spec_connect_replies(sid)[k],
            ) {
                Some(t) => spec_parse_command(t) is Some,
                None => true,
            },
        forall|k: int|
            0 <= k < spec_close_replies(sid).len() ==> match reply_text(
                #[trigger] spec_close_replies(sid)[k],
            ) {
                Some(t) => spec_parse_command(t) is Some,
                None => true,
            },
{
    lemma_command_round_trip(CommandModel::L { id: sid.spec_index() });
    lemma_command_round_trip(CommandModel::K { id: sid.spec_index() });
    lemma_command_round_trip(CommandModel::A);
}


/// `replies` is a single message to session `index` of `role`, whose text reads as `command`.
pub open spec fn single_send(replies: Seq<ReplyModel>, role: Role, index: usize, command: CommandModel) -> bool {
    &&& replies.len() == 1
    &&& match replies[0] {
        ReplyModel::Send { role: r, index: i, text } => r == role && i == index && spec_parse_command(
            text,
        ) == Some(command),
        _ => false,
    }
}

/// `f`, `g` and `h` are passed on to the session whose index they carry, with that index
/// replaced by the sender's own and the body left as it came; where no such session is
/// connected, nothing is sent and the sender is warned.
pub proof fn lemma_forwarded_messages_name_the_sender<S>(
    app: AppState<S>,
    sid: SessionId,
    content: Seq<char>,
)
    requires
        app.wf(),
    ensures
        match spec_parse_command(content) {
            Some(CommandModel::F { body }) => if app.viewers().contains_key(body.id) {
                single_send(
                    spec_message_replies(app, sid, content),
                    Role::Viewer,
                    body.id,
                    CommandModel::F { body: JSONBodyModel { body: body.body, id: sid.spec_index() } },
                )
            } else {
                spec_message_replies(app, sid, content) == seq![
                    ReplyModel::Warn { warning: Warning::OfferToNoOne },
                ]
            },
            Some(CommandModel::G { body }) => if app.viewers().contains_key(body.id) {
                single_send(
                    spec_message_replies(app, sid, content),
                    Role::Viewer,
                    body.id,
                    CommandModel::G { body: JSONBodyModel { body: body.body, id: sid.spec_index() } },
                )
            } else {
                spec_message_replies(app, sid, content) == seq![
                    ReplyModel::Warn { warning: Warning::CandidateToNoOne },
                ]
            },
            Some(CommandModel::H { body }) => if app.streamers().contains_key(body.id) {
                single_send(
                    spec_message_replies(app, sid, content),
                    Role::Streamer,
                    body.id,
                    CommandModel::H { body: JSONBodyModel { body: body.body, id: sid.spec_index() } },
                )
            } else {
                spec_message_replies(app, sid, content) == seq![
                    ReplyModel::Warn { warning: Warning::CandidateToNoOne },
                ]
            },
            _ => true,
        },
{
    match spec_parse_command(content) {
        Some(CommandModel::F { body }) => {
            lemma_command_round_trip(
                CommandModel::F { body: JSONBodyModel { body: body.body, id: sid.spec_index() } },
            );
        },
        Some(CommandModel::G { body }) => {
            lemma_command_round_trip(
                CommandModel::G { body: JSONBodyModel { body: body.body, id: sid.spec_index() } },
            );
        },
        Some(CommandModel::H { body }) => {
            lemma_command_round_trip(
                CommandModel::H { body: JSONBodyModel { body: body.body, id: sid.spec_index() } },
            );
        },
        _ => {},
    }
}

/// Only streamers are announced on the text protocol. A connecting streamer is first sent
/// `l` with its own index, then every controller and viewer is sent `a`; a closing
/// streamer has `k` with its index sent to every controller and viewer. Connecting or
/// closing a controller or a viewer sends nothing.
pub proof fn lemma_only_streamers_are_announced(sid: SessionId)
    ensures
        sid.spec_role() != Role::Streamer ==> spec_connect_replies(sid).len() == 0
            && spec_close_replies(sid).len() == 0,
        sid.spec_role() == Role::Streamer ==> {
            let c = spec_connect_replies(sid);
            let k = spec_close_replies(sid);
            &&& c.len() == 2
            &&& c[0] is SendBack && spec_parse_command(c[0]->SendBack_text) == Some(
                CommandModel::L { id: sid.spec_index() },
            )
            &&& c[1] is Broadcast && spec_parse_command(c[1]->Broadcast_text) == Some(CommandModel::A)
            &&& k.len() == 1
            &&& k[0] is Broadcast && spec_parse_command(k[0]->Broadcast_text) == Some(
                CommandModel::K { id: sid.spec_index() },
            )
        },
{
    lemma_command_round_trip(CommandModel::L { id: sid.spec_index() });
    lemma_command_round_trip(CommandModel::K { id: sid.spec_index() });
    lemma_command_round_trip(CommandModel::A);
}

/// How the other text commands are answered: a message that is no command is warned about;
/// `b` is answered back with the indices of all connected streamers, each once, in
/// increasing order; `d` from a connected viewer goes, as `e` with the viewer's index, to
/// the connected streamer it watches; `i` goes as it came to the streamer it names; `j`
/// goes as it came to every controller and viewer; `a`, `c`, `e`, `k` and `l` are not
/// answered. Where the session addressed is not connected the sender is warned instead.
pub proof fn lemma_text_commands_are_answered<S>(app: AppState<S>, sid: SessionId, content: Seq<char>)
    requires
        app.wf(),
    ensures
        ({
            let replies = spec_message_replies(app, sid, content);
            match spec_parse_command(content) {
                None => replies == seq![ReplyModel::Warn { warning: Warning::InvalidCommand }],
                Some(CommandModel::B) => replies.len() == 1 && replies[0] is SendBack && (
                !app.streamers().dom().is_empty() ==> exists|ids: Seq<usize>|
                    {
                        &&& spec_parse_command(replies[0]->SendBack_text) == Some(
                            CommandModel::C { ids },
                        )
                        &&& ids.len() == app.streamers().len()
                        &&& forall|k: int| 0 <= k < ids.len() ==> app.streamers().contains_key(
                            #[trigger] ids[k],
                        )
                        &&& forall|i: usize| #[trigger] app.streamers().contains_key(i) ==> ids.contains(i)
                        &&& forall|k: int, l: int| 0 <= k < l < ids.len() ==> #[trigger] ids[k] < #[trigger] ids[l]
                    }),
                Some(CommandModel::D) => {
                    let v = sid.spec_index();
                    if sid.spec_role() == Role::Viewer && app.viewers().contains_key(v) {
                        match app.viewers()[v].watching {
                            Some(s) => if app.streamers().contains_key(s) {
                                single_send(replies, Role::Streamer, s, CommandModel::E { id: v })
                            } else {
                                replies == seq![ReplyModel::Warn { warning: Warning::NotWatching }]
                            },
                            None => replies == seq![ReplyModel::Warn { warning: Warning::NotWatching }],
                        }
                    } else {
                        replies == seq![ReplyModel::Warn { warning: Warning::NotAViewer }]
                    }
                },
                Some(CommandModel::I { id, quality }) => if app.streamers().contains_key(id) {
                    single_send(replies, Role::Streamer, id, CommandModel::I { id, quality })
                } else {
                    replies == seq![ReplyModel::Warn { warning: Warning::QualityRequestToNoOne }]
                },
                Some(CommandModel::J { body }) => replies.len() == 1 && replies[0] is Broadcast
                    && spec_parse_command(replies[0]->Broadcast_text) == Some(CommandModel::J { body }),
                Some(CommandModel::F { .. }) => true,
                Some(CommandModel::G { .. }) => true,
                Some(CommandModel::H { .. }) => true,
                Some(_) => replies.len() == 0,
            }
        }),
{
    match spec_parse_command(content) {
        Some(CommandModel::B) => {
            if !app.streamers().dom().is_empty() {
                app.lemma_entries_in_key_order();
                let es = app.streamer_entries();
                let ids = es.map_values(|e: (usize, crate::app_state::StreamerData<S>)| e.0);
                let i = app.streamers().dom().choose();
                assert(app.streamers().contains_key(i));
                assert(ids.len() > 0);
                lemma_command_round_trip(CommandModel::C { ids });
                assert forall|k: int| 0 <= k < ids.len() implies app.streamers().contains_key(
                    #[trigger] ids[k],
                ) by {
                    assert(ids[k] == es[k].0);
                }
                assert forall|i: usize| #[trigger] app.streamers().contains_key(i) implies ids.contains(i) by {
                    let k = choose|k: int| 0 <= k < es.len() && es[k].0 == i;
                    assert(ids[k] == i);
                }
                assert forall|k: int, l: int| 0 <= k < l < ids.len() implies #[trigger] ids[k] < #[trigger] ids[l] by {
                    assert(ids[k] == es[k].0 && ids[l] == es[l].0);
                }
            }
        },
        Some(CommandModel::D) => {
            lemma_command_round_trip(CommandModel::E { id: sid.spec_index() });
        },
        Some(CommandModel::I { id, quality }) => {
            lemma_command_round_trip(CommandModel::I { id, quality });
        },
        Some(CommandModel::J { body }) => {
            lemma_command_round_trip(CommandModel::J { body });
        },
        _ => {},
    }
}

impl From<Quality> for usize {
    fn from(value: Quality) -> (res: usize) {
        value.to_usize()
    }
}

impl vstd::std_specs::convert::FromSpecImpl<Quality> for usize {
    open spec fn obeys_from_spec() -> bool {
        true
    }

    open spec fn from_spec(v: Quality) -> usize {
        quality_number(v)
    }
}

impl TryFrom<usize> for Quality {
    type Error = ();

    fn try_from(value: usize) -> (res: Result<Quality, ()>) {
        Quality::try_from(value)
    }
}

impl vstd::std_specs::convert::TryFromSpecImpl<usize> for Quality {
    open spec fn obeys_try_from_spec() -> bool {
        true
    }

    open spec fn try_from_spec(v: usize) -> Result<Quality, ()> {
        match spec_quality_of(v) {
            Some(q) => Ok(q),
            None => Err(()),
        }
    }
}

impl std::str::FromStr for Quality {
    type Err = ();

    fn from_str(s: &str) -> (res: Result<Quality, ()>)
        ensures
            res == match spec_parse_quality(s@) {
                Some(q) => Ok::<Quality, ()>(q),
                None => Err(()),
            },
    {
        Quality::parse(s)
    }
}

impl std::str::FromStr for JSONBody {
    type Err = ();

    fn from_str(s: &str) -> (res: Result<JSONBody, ()>)
        ensures
            match res {
                Ok(b) => spec_parse_json_body(s@) == Some(b@),
                Err(_) => spec_parse_json_body(s@) is None,
            },
    {
        JSONBody::parse(s)
    }
}

impl std::str::FromStr for Commands {
    type Err = ();

    fn from_str(s: &str) -> (res: Result<Commands, ()>)
        ensures
            match res {
                Ok(c) => spec_parse_command(s@) == Some(c@),
                Err(_) => spec_parse_command(s@) is None,
            },
    {
        Commands::parse(s)
    }
}

} // verus!

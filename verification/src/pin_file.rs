//! The pin file: one line per checkout, `name:identifier`, each line ended
//! by a line feed.
//!
//! Names are written as they are. A name is not escaped, so a name that
//! holds the separator or a line feed is not read back as it was written;
//! [`is_recordable`] says which pins survive the round trip, and
//! [`lemma_round_trip`] proves that they do.

use vstd::prelude::*;
use vstd::string::StringExecFns;
use crate::identifier::{
    is_canonical_identifier, lemma_canonical_is_identifier_text, lemma_identifier_text_is_plain,
};
use crate::text::{chars_of, find_from, first_index, lemma_first_index, lemma_first_index_is};

verus! {

/// The name of the pin file beneath the directory it is kept in.
pub const PT_HASH_FILE: &'static str = "pt_commit_hash.txt";

/// The character between a checkout's name and its commit identifier.
pub const SEPARATOR: char = ':';

/// The character that ends a line.
pub const LINE_FEED: char = '\n';

/// The character that may precede a line feed and is then dropped with it.
pub const CARRIAGE_RETURN: char = '\r';

/// One entry of a pin file: the name of a checkout and the identifier of
/// the commit it is pinned to.
#[derive(Clone, Debug, PartialEq, Eq)]
pub struct PinRecord {
    /// The name of the checkout: the name of its directory.
    pub name: String,
    /// The identifier of the commit, as hexadecimal text.
    pub identifier: String,
}

/// The mathematical value of a [`PinRecord`].
pub struct Pin {
    /// The characters of the name.
    pub name: Seq<char>,
    /// The characters of the identifier.
    pub identifier: Seq<char>,
}

impl View for PinRecord {
    type V = Pin;

    open spec fn view(&self) -> Pin {
        Pin { name: self.name@, identifier: self.identifier@ }
    }
}

/// The values of a sequence of records.
pub open spec fn pins_of(records: Seq<PinRecord>) -> Seq<Pin> {
    records.map_values(|r: PinRecord| r@)
}

/// The values of a sequence of strings.
pub open spec fn texts_of(strings: Seq<String>) -> Seq<Seq<char>> {
    strings.map_values(|s: String| s@)
}

/// The line that stands for `pin`, without the line feed that ends it.
pub open spec fn pin_line(pin: Pin) -> Seq<char> {
    pin.name.push(SEPARATOR) + pin.identifier
}

/// The text of a pin file that holds `pins`, in order.
pub open spec fn render(pins: Seq<Pin>) -> Seq<char>
    decreases pins.len(),
{
    if pins.len() == 0 {
        Seq::empty()
    } else {
        render(pins.drop_last()) + pin_line(pins.last()).push(LINE_FEED)
    }
}

/// `line` without the carriage return at its end, if it has one.
pub open spec fn without_carriage_return(line: Seq<char>) -> Seq<char> {
    if line.len() > 0 && line.last() == CARRIAGE_RETURN {
        line.drop_last()
    } else {
        line
    }
}

/// The lines of `text`.
///
/// A line ends at a line feed; the line feed, and a carriage return
/// directly before it, are not part of the line. Text after the last line
/// feed is a line too unless it is empty.
pub open spec fn lines_of(text: Seq<char>) -> Seq<Seq<char>>
    decreases text.len(),
{
    let end = first_index(text, LINE_FEED) as int;
    if text.len() == 0 {
        Seq::empty()
    } else if end >= text.len() {
        seq![text]
    } else {
        seq![without_carriage_return(text.take(end))] + lines_of(text.skip(end + 1))
    }
}

/// The pin that `line` stands for.
///
/// The line is split at its first separator. There is no pin where the
/// line holds no separator, or where nothing stands before or after it.
pub open spec fn parse_line(line: Seq<char>) -> Option<Pin> {
    let at = first_index(line, SEPARATOR) as int;
    if 0 < at && at + 1 < line.len() {
        Some(Pin { name: line.take(at), identifier: line.skip(at + 1) })
    } else {
        None
    }
}

/// Reads one line of a pin file.
pub fn parse_pin_line(line: &str) -> (r: Option<PinRecord>)
    ensures
        match r {
            Some(record) => parse_line(line@) == Some(record@),
            None => parse_line(line@) is None,
        },
{
    let chars = chars_of(line);
    let at = find_from(&chars, 0, SEPARATOR);
    assert(chars@.skip(0) =~= line@);
    if 0 < at && at < chars.len() - 1 {
        let name = line.substring_char(0, at).to_owned();
        let identifier = line.substring_char(at + 1, chars.len()).to_owned();
        Some(PinRecord { name, identifier })
    } else {
        None
    }
}

/// Cuts `text` into its lines.
pub fn split_lines(text: &str) -> (lines: Vec<String>)
    ensures
        texts_of(lines@) == lines_of(text@),
{
    let chars = chars_of(text);
    let n = chars.len();
    let mut lines: Vec<String> = Vec::new();
    let mut start: usize = 0;
    assert(text@.skip(0) =~= text@);
    while start < n
        invariant
            chars@ == text@,
            n == chars.len(),
            start <= n,
            texts_of(lines@) + lines_of(text@.skip(start as int)) =~= lines_of(text@),
        decreases n - start,
    {
        let ghost rest = text@.skip(start as int);
        let at = find_from(&chars, start, LINE_FEED);
        if at == n {
            let line = text.substring_char(start, n).to_owned();
            lines.push(line);
            start = n;
        } else {
            let mut end = at;
            if end > start && chars[end - 1] == CARRIAGE_RETURN {
                end = end - 1;
            }
            let line = text.substring_char(start, end).to_owned();
            assert(line@ =~= without_carriage_return(rest.take(at - start)));
            assert(rest.skip(at - start + 1) =~= text@.skip(at + 1));
            lines.push(line);
            start = at + 1;
        }
    }
    lines
}

/// Writes `records` as the text of a pin file: each record on a line of
/// its own, in the order given.
pub fn render_pin_file(records: &Vec<PinRecord>) -> (text: String)
    ensures
        text@ == render(pins_of(records@)),
{
    let mut text = String::new();
    let mut i: usize = 0;
    while i < records.len()
        invariant
            i <= records.len(),
            text@ == render(pins_of(records@).take(i as int)),
        decreases records.len() - i,
    {
        let record = &records[i];
        text.append(record.name.as_str());
        text.append(":");
        text.append(record.identifier.as_str());
        text.append("\n");
        proof {
            reveal_strlit(":");
            reveal_strlit("\n");
            let pins = pins_of(records@);
            assert(pins.take(i + 1).drop_last() =~= pins.take(i as int));
            assert(pins.take(i + 1).last() == record@);
        }
        i += 1;
    }
    assert(pins_of(records@).take(records.len() as int) =~= pins_of(records@));
    text
}

/// Whether `line` comes back as one line, unchanged, when it is written
/// with a line feed after it: it holds no line feed and does not end in a
/// carriage return.
pub open spec fn is_one_line(line: Seq<char>) -> bool {
    &&& !line.contains(LINE_FEED)
    &&& !(line.len() > 0 && line.last() == CARRIAGE_RETURN)
}

/// Whether `name` is a name that a pin file can carry: it is not empty and
/// holds neither the separator nor a line feed.
pub open spec fn is_plain_name(name: Seq<char>) -> bool {
    &&& name.len() > 0
    &&& !name.contains(SEPARATOR)
    &&& !name.contains(LINE_FEED)
}

/// Whether `pin` can be written to a pin file and read back as it was.
///
/// The name is plain; the identifier is not empty, holds no line feed and
/// does not end in a carriage return.
pub open spec fn is_recordable(pin: Pin) -> bool {
    &&& is_plain_name(pin.name)
    &&& pin.identifier.len() > 0
    &&& !pin.identifier.contains(LINE_FEED)
    &&& pin.identifier.last() != CARRIAGE_RETURN
}

/// A pin with a plain name and a canonical identifier is recordable.
pub proof fn lemma_canonical_pin_is_recordable(pin: Pin)
    requires
        is_plain_name(pin.name),
        is_canonical_identifier(pin.identifier),
    ensures
        is_recordable(pin),
{
    lemma_canonical_is_identifier_text(pin.identifier);
    lemma_identifier_text_is_plain(pin.identifier);
}

/// A line without a separator stands for no pin.
pub proof fn lemma_line_without_separator(line: Seq<char>)
    requires
        !line.contains(SEPARATOR),
    ensures
        parse_line(line) is None,
{
    lemma_first_index(line, SEPARATOR);
}

/// A line stands for a pin exactly when it is that pin's line, the name is
/// not empty and holds no separator, and the identifier is not empty.
pub proof fn lemma_parse_line_exact(line: Seq<char>, pin: Pin)
    ensures
        parse_line(line) == Some(pin) <==> {
            &&& line == pin_line(pin)
            &&& pin.name.len() > 0
            &&& !pin.name.contains(SEPARATOR)
            &&& pin.identifier.len() > 0
        },
{
    lemma_first_index(line, SEPARATOR);
    let at = first_index(line, SEPARATOR) as int;
    if parse_line(line) == Some(pin) {
        assert(line =~= pin_line(pin));
        assert forall|j: int| 0 <= j < pin.name.len() implies pin.name[j] != SEPARATOR by {
            assert(pin.name[j] == line[j]);
        }
    }
    if line == pin_line(pin) && pin.name.len() > 0 && !pin.name.contains(SEPARATOR)
        && pin.identifier.len() > 0 {
        let cut = pin.name.len() as int;
        assert forall|j: int| 0 <= j < cut implies line[j] != SEPARATOR by {
            assert(pin.name.contains(line[j]));
        }
        lemma_first_index_is(line, SEPARATOR, cut);
        assert(line.take(cut) =~= pin.name);
        assert(line.skip(cut + 1) =~= pin.identifier);
    }
}

/// The line of a recordable pin is one line, and reading it gives the pin
/// back.
pub proof fn lemma_parse_pin_line(pin: Pin)
    requires
        is_recordable(pin),
    ensures
        is_one_line(pin_line(pin)),
        parse_line(pin_line(pin)) == Some(pin),
{
    let line = pin_line(pin);
    let at = pin.name.len() as int;
    lemma_parse_line_exact(line, pin);
    assert forall|j: int| 0 <= j < line.len() implies line[j] != LINE_FEED by {
        if j < at {
            assert(pin.name.contains(line[j]));
        } else if j > at {
            assert(pin.identifier.contains(pin.identifier[j - at - 1]));
        }
    }
}

/// Text that is empty or ends in a line feed can be followed by more text
/// without a change to its lines: the lines of the whole are the lines of
/// the first part, then those of the second.
pub proof fn lemma_lines_of_concat(head: Seq<char>, tail: Seq<char>)
    requires
        head.len() == 0 || head.last() == LINE_FEED,
    ensures
        lines_of(head + tail) == lines_of(head) + lines_of(tail),
    decreases head.len(),
{
    if head.len() == 0 {
        assert(head + tail =~= tail);
    } else {
        let whole = head + tail;
        let end = first_index(head, LINE_FEED) as int;
        lemma_first_index(head, LINE_FEED);
        assert(head.contains(head.last()));
        assert forall|j: int| 0 <= j < end implies whole[j] != LINE_FEED by {
            assert(whole[j] == head[j]);
        }
        lemma_first_index_is(whole, LINE_FEED, end);
        assert(whole.take(end) =~= head.take(end));
        assert(whole.skip(end + 1) =~= head.skip(end + 1) + tail);
        lemma_lines_of_concat(head.skip(end + 1), tail);
    }
}

/// The text of a pin file is empty or ends in a line feed.
pub proof fn lemma_render_ends_lines(pins: Seq<Pin>)
    ensures
        render(pins).len() == 0 || render(pins).last() == LINE_FEED,
        pins.len() == 0 ==> render(pins).len() == 0,
{
}

/// A pin file has one line for each pin, in order, and each line is the
/// line of its pin, provided that each of those is one line.
pub proof fn lemma_lines_of_render(pins: Seq<Pin>)
    requires
        forall|i: int| 0 <= i < pins.len() ==> is_one_line(pin_line(#[trigger] pins[i])),
    ensures
        lines_of(render(pins)) == pins.map_values(|pin: Pin| pin_line(pin)),
    decreases pins.len(),
{
    if pins.len() > 0 {
        let front = pins.drop_last();
        let line = pin_line(pins.last());
        let ended = line.push(LINE_FEED);
        assert forall|i: int| 0 <= i < front.len() implies is_one_line(
            pin_line(#[trigger] front[i]),
        ) by {
            assert(front[i] == pins[i]);
        }
        lemma_lines_of_render(front);
        lemma_render_ends_lines(front);
        lemma_lines_of_concat(render(front), ended);
        assert forall|j: int| 0 <= j < line.len() implies ended[j] != LINE_FEED by {
            assert(line.contains(line[j]));
        }
        lemma_first_index_is(ended, LINE_FEED, line.len() as int);
        assert(ended.take(line.len() as int) =~= line);
        assert(lines_of(ended.skip(line.len() as int + 1)) =~= Seq::<Seq<char>>::empty());
        assert(lines_of(ended) =~= seq![line]);
    }
}

/// What is written is read back: the text of a pin file that holds
/// recordable pins has exactly one line for each pin, in the order of the
/// pins, and reading a line gives the pin that it was written for.
pub proof fn lemma_round_trip(pins: Seq<Pin>)
    requires
        forall|i: int| 0 <= i < pins.len() ==> is_recordable(#[trigger] pins[i]),
    ensures
        lines_of(render(pins)).len() == pins.len(),
        forall|i: int|
            0 <= i < pins.len() ==> parse_line(#[trigger] lines_of(render(pins))[i]) == Some(
                pins[i],
            ),
{
    assert forall|i: int| 0 <= i < pins.len() implies is_one_line(
        pin_line(#[trigger] pins[i]),
    ) by {
        lemma_parse_pin_line(pins[i]);
    }
    lemma_lines_of_render(pins);
    assert forall|i: int| 0 <= i < pins.len() implies parse_line(
        #[trigger] lines_of(render(pins))[i],
    ) == Some(pins[i]) by {
        lemma_parse_pin_line(pins[i]);
    }
}

} // verus!

//! The input that is typed into a terminal application.

use vstd::prelude::*;
use vstd::string::*;
use vstd::utf8::*;
use crate::text::{chunks, debug_text, quoted, texts};

verus! {

/// The text of an event `text:<value>`.
pub open spec fn typed_text(event: Seq<char>) -> Option<Seq<char>> {
    if event.len() >= 5 && event.subrange(0, 5) == "text:"@ {
        Some(event.subrange(5, event.len() as int))
    } else {
        None
    }
}

/// The letter of a key `ctrl-a` to `ctrl-z`.
pub open spec fn control_letter(name: Seq<char>) -> Option<char> {
    if name.len() == 6 && name.subrange(0, 5) == "ctrl-"@ && 'a' <= name[5] <= 'z' {
        Some(name[5])
    } else {
        None
    }
}

/// What a terminal sends for a named key: for a letter with control, the number
/// of the letter in the alphabet.
pub open spec fn key_bytes(name: Seq<char>) -> Option<Seq<u8>> {
    if control_letter(name) is Some {
        Some(seq![(control_letter(name).unwrap() as int - 'a' as int + 1) as u8])
    } else if name == "enter"@ {
        Some(seq![0x0du8])
    } else if name == "escape"@ || name == "esc"@ {
        Some(seq![0x1bu8])
    } else if name == "up"@ {
        Some(seq![0x1bu8, 0x5bu8, 0x41u8])
    } else if name == "down"@ {
        Some(seq![0x1bu8, 0x5bu8, 0x42u8])
    } else if name == "left"@ {
        Some(seq![0x1bu8, 0x5bu8, 0x44u8])
    } else if name == "right"@ {
        Some(seq![0x1bu8, 0x5bu8, 0x43u8])
    } else if name == "tab"@ {
        Some(seq![0x09u8])
    } else if name == "shift-tab"@ {
        Some(seq![0x1bu8, 0x5bu8, 0x5au8])
    } else if name == "backspace"@ {
        Some(seq![0x7fu8])
    } else if name == "delete"@ {
        Some(seq![0x1bu8, 0x5bu8, 0x33u8, 0x7eu8])
    } else if name == "home"@ {
        Some(seq![0x1bu8, 0x5bu8, 0x48u8])
    } else if name == "end"@ {
        Some(seq![0x1bu8, 0x5bu8, 0x46u8])
    } else if name == "page-up"@ {
        Some(seq![0x1bu8, 0x5bu8, 0x35u8, 0x7eu8])
    } else if name == "page-down"@ {
        Some(seq![0x1bu8, 0x5bu8, 0x36u8, 0x7eu8])
    } else {
        None
    }
}

/// The bytes of one event, where it is one that can be typed.
pub open spec fn event_bytes(event: Seq<char>) -> Option<Seq<u8>> {
    match typed_text(event) {
        Some(text) => Some(encode_utf8(text)),
        None => key_bytes(event),
    }
}

/// Whether every event can be typed.
pub open spec fn typeable(events: Seq<Seq<char>>) -> bool {
    forall|i: int| 0 <= i < events.len() ==> event_bytes(#[trigger] events[i]) is Some
}

/// The place of the first event that cannot be typed.
pub open spec fn first_untypeable(events: Seq<Seq<char>>, i: int) -> bool {
    &&& 0 <= i < events.len()
    &&& event_bytes(events[i]) is None
    &&& forall|k: int| 0 <= k < i ==> event_bytes(#[trigger] events[k]) is Some
}

/// The bytes of some events, one after the other.
pub open spec fn burst(events: Seq<Seq<char>>) -> Seq<u8>
    decreases events.len(),
{
    if events.len() == 0 {
        Seq::empty()
    } else {
        burst(events.drop_last()) + event_bytes(events.last()).unwrap_or(Seq::empty())
    }
}

/// The pieces in which one event is typed at a pace: the characters of a text
/// one by one, a key whole.
pub open spec fn event_atoms(event: Seq<char>) -> Seq<Seq<u8>> {
    match typed_text(event) {
        Some(text) => Seq::new(text.len(), |i: int| encode_utf8(seq![text[i]])),
        None => seq![key_bytes(event).unwrap_or(Seq::empty())],
    }
}

/// The pieces of some events, one after the other.
pub open spec fn atoms(events: Seq<Seq<char>>) -> Seq<Seq<u8>>
    decreases events.len(),
{
    if events.len() == 0 {
        Seq::empty()
    } else {
        atoms(events.drop_last()) + event_atoms(events.last())
    }
}

/// The pieces in which some events reach a session.
pub open spec fn session_atoms(events: Seq<Seq<char>>, paced: bool) -> Seq<Seq<u8>> {
    if paced {
        atoms(events)
    } else {
        seq![burst(events)]
    }
}

/// An event that is neither `text:<value>` nor the name of a key.
#[derive(Debug, PartialEq, Eq)]
pub struct InputError {
    pub event: String,
}

impl InputError {
    /// What a user is told.
    pub open spec fn told(self) -> Seq<char> {
        "unsupported --send event "@ + debug_text(self.event@)
            + "; use text:<value>, ctrl-a through ctrl-z, enter, escape, up, down, left, right, tab, shift-tab, backspace, delete, home, end, page-up, or page-down"@
    }

    /// What a user is told.
    pub fn message(&self) -> (message: String)
        ensures
            message@ == self.told(),
    {
        "unsupported --send event ".to_owned().concat(quoted(self.event.as_str()).as_str()).concat(
            "; use text:<value>, ctrl-a through ctrl-z, enter, escape, up, down, left, right, tab, shift-tab, backspace, delete, home, end, page-up, or page-down",
        )
    }
}

/// Whether two texts are the same.
fn equal(a: &str, b: &str) -> (same: bool)
    ensures
        same == (a@ == b@),
{
    a.to_owned() == b.to_owned()
}

/// The text of an event `text:<value>`.
fn text_of(event: &str) -> (text: Option<&str>)
    ensures
        text is Some == typed_text(event@) is Some,
        text matches Some(text) ==> typed_text(event@) == Some(text@),
{
    let length = event.unicode_len();
    if length >= 5 && equal(event.substring_char(0, 5), "text:") {
        Some(event.substring_char(5, length))
    } else {
        None
    }
}

/// The byte of a key `ctrl-a` to `ctrl-z`.
fn control_key(name: &str) -> (byte: Option<u8>)
    ensures
        byte is Some == control_letter(name@) is Some,
        byte matches Some(byte) ==> byte == control_letter(name@).unwrap() as int - 'a' as int + 1,
{
    if name.unicode_len() != 6 || !equal(name.substring_char(0, 5), "ctrl-") {
        return None;
    }
    let letter = name.get_char(5);
    if 'a' <= letter && letter <= 'z' {
        Some((letter as u32 - 0x60) as u8)
    } else {
        None
    }
}

/// What a terminal sends for a named key.
fn key(name: &str) -> (bytes: Option<Vec<u8>>)
    ensures
        bytes is Some == key_bytes(name@) is Some,
        bytes matches Some(bytes) ==> key_bytes(name@) == Some(bytes@),
{
    if let Some(byte) = control_key(name) {
        let bytes: Vec<u8> = vec![byte];
        assert(Some(bytes@) == key_bytes(name@));
        return Some(bytes);
    }
    let bytes: Vec<u8> = if equal(name, "enter") {
        vec![0x0d]
    } else if equal(name, "escape") || equal(name, "esc") {
        vec![0x1b]
    } else if equal(name, "up") {
        vec![0x1b, 0x5b, 0x41]
    } else if equal(name, "down") {
        vec![0x1b, 0x5b, 0x42]
    } else if equal(name, "left") {
        vec![0x1b, 0x5b, 0x44]
    } else if equal(name, "right") {
        vec![0x1b, 0x5b, 0x43]
    } else if equal(name, "tab") {
        vec![0x09]
    } else if equal(name, "shift-tab") {
        vec![0x1b, 0x5b, 0x5a]
    } else if equal(name, "backspace") {
        vec![0x7f]
    } else if equal(name, "delete") {
        vec![0x1b, 0x5b, 0x33, 0x7e]
    } else if equal(name, "home") {
        vec![0x1b, 0x5b, 0x48]
    } else if equal(name, "end") {
        vec![0x1b, 0x5b, 0x46]
    } else if equal(name, "page-up") {
        vec![0x1b, 0x5b, 0x35, 0x7e]
    } else if equal(name, "page-down") {
        vec![0x1b, 0x5b, 0x36, 0x7e]
    } else {
        return None;
    };
    assert(Some(bytes@) == key_bytes(name@));
    Some(bytes)
}

/// The UTF-8 bytes of one character.
fn one_character(c: char) -> (bytes: Vec<u8>)
    ensures
        bytes@ == encode_utf8(seq![c]),
{
    let n: u32 = c as u32;
    let last: u8 = 0x80 | (n & 0x3f) as u8;
    let second_last: u8 = 0x80 | ((n >> 6) & 0x3f) as u8;
    let third_last: u8 = 0x80 | ((n >> 12) & 0x3f) as u8;
    let bytes: Vec<u8> = if n <= 0x7f {
        vec![(n & 0x7f) as u8]
    } else if n <= 0x7ff {
        vec![0xc0 | ((n >> 6) & 0x1f) as u8, last]
    } else if n <= 0xffff {
        vec![0xe0 | ((n >> 12) & 0x0f) as u8, second_last, last]
    } else {
        vec![0xf0 | ((n >> 18) & 0x07) as u8, third_last, second_last, last]
    };
    proof {
        char_is_scalar(c);
        lemma_one_character(c);
    }
    assert(bytes@ =~= encode_scalar(n));
    bytes
}

proof fn lemma_one_character(c: char)
    ensures
        encode_utf8(seq![c]) == encode_scalar(c as u32),
{
    reveal_with_fuel(encode_utf8, 2);
    assert(seq![c].drop_first() =~= Seq::<char>::empty());
    assert(encode_utf8(seq![c]) =~= encode_scalar(c as u32));
}

/// The bytes of some events as one burst, in their order.
pub fn capture_input(events: &[String]) -> (input: Result<Vec<u8>, InputError>)
    ensures
        input is Ok == typeable(texts(events@)),
        input matches Ok(bytes) ==> bytes@ == burst(texts(events@)),
        input matches Err(error) ==> exists|i: int| #[trigger]
            first_untypeable(texts(events@), i) && error.event@ == texts(events@)[i],
{
    let ghost names = texts(events@);
    let mut input: Vec<u8> = Vec::new();
    let mut i: usize = 0;
    assert(names.take(0) =~= Seq::empty());
    while i < events.len()
        invariant
            i <= events@.len(),
            names == texts(events@),
            names.len() == events@.len(),
            typeable(names.take(i as int)),
            input@ == burst(names.take(i as int)),
        decreases events@.len() - i,
    {
        let event = events[i].as_str();
        let bytes = match text_of(event) {
            Some(text) => Some(text.as_bytes_vec()),
            None => key(event),
        };
        assert(names[i as int] == event@);
        assert(names.take(i + 1).drop_last() =~= names.take(i as int));
        match bytes {
            Some(bytes) => {
                input.extend_from_slice(bytes.as_slice());
                assert(input@ =~= burst(names.take(i + 1)));
            },
            None => {
                assert forall|k: int| 0 <= k < i implies event_bytes(#[trigger] names[k]) is Some by {
                    assert(names.take(i as int)[k] == names[k]);
                }
                assert(first_untypeable(names, i as int));
                return Err(InputError { event: event.to_owned() });
            },
        }
        i += 1;
    }
    assert(names.take(i as int) =~= names);
    Ok(input)
}

/// The pieces in which some events reach a session: one burst, or, at a pace,
/// a piece for every character of a text and for every key.
pub fn session_input(events: &[String], paced: bool) -> (input: Result<Vec<Vec<u8>>, InputError>)
    ensures
        input is Ok == typeable(texts(events@)),
        input matches Ok(pieces) ==> chunks(pieces@) == session_atoms(texts(events@), paced),
        input matches Err(error) ==> exists|i: int| #[trigger]
            first_untypeable(texts(events@), i) && error.event@ == texts(events@)[i],
{
    if !paced {
        return match capture_input(events) {
            Ok(bytes) => {
                let pieces: Vec<Vec<u8>> = vec![bytes];
                assert(chunks(pieces@) =~= seq![bytes@]);
                Ok(pieces)
            },
            Err(error) => Err(error),
        };
    }
    let ghost names = texts(events@);
    let mut input: Vec<Vec<u8>> = Vec::new();
    let mut i: usize = 0;
    assert(names.take(0) =~= Seq::empty());
    assert(chunks(input@) =~= atoms(names.take(0)));
    while i < events.len()
        invariant
            i <= events@.len(),
            names == texts(events@),
            names.len() == events@.len(),
            typeable(names.take(i as int)),
            chunks(input@) == atoms(names.take(i as int)),
        decreases events@.len() - i,
    {
        let event = events[i].as_str();
        let ghost before = chunks(input@);
        assert(names[i as int] == event@);
        assert(names.take(i + 1).drop_last() =~= names.take(i as int));
        match text_of(event) {
            Some(text) => {
                let ghost pieces = event_atoms(event@);
                assert(before + pieces.take(0) =~= before);
                for c in it: text.chars()
                    invariant
                        it.seq() == text@,
                        typed_text(event@) == Some(text@),
                        pieces == event_atoms(event@),
                        chunks(input@) == before + pieces.take(it.index() as int),
                {
                    let ghost k = it.index() as int;
                    let ghost earlier = input@;
                    assert(c == text@[k]);
                    let bytes = one_character(c);
                    input.push(bytes);
                    assert(chunks(input@) =~= chunks(earlier).push(bytes@));
                    assert(pieces.take(k + 1) =~= pieces.take(k).push(pieces[k]));
                    assert(chunks(input@) =~= before + pieces.take(k + 1));
                }
                assert(pieces.take(text@.len() as int) =~= pieces);
            },
            None => {
                match key(event) {
                    Some(bytes) => {
                        let ghost earlier = input@;
                        input.push(bytes);
                        assert(chunks(input@) =~= chunks(earlier) + seq![bytes@]);
                    },
                    None => {
                        assert forall|k: int| 0 <= k < i implies event_bytes(
                            #[trigger] names[k],
                        ) is Some by {
                            assert(names.take(i as int)[k] == names[k]);
                        }
                        assert(first_untypeable(names, i as int));
                        return Err(InputError { event: event.to_owned() });
                    },
                }
            },
        }
        i += 1;
    }
    assert(names.take(i as int) =~= names);
    Ok(input)
}

/// The UTF-8 bytes of two texts in a row are those of the first and then those
/// of the second.
proof fn lemma_encode_concat(a: Seq<char>, b: Seq<char>)
    ensures
        encode_utf8(a + b) == encode_utf8(a) + encode_utf8(b),
    decreases a.len(),
{
    if a.len() == 0 {
        assert(a + b =~= b);
        assert(encode_utf8(a) + encode_utf8(b) =~= encode_utf8(b));
    } else {
        assert((a + b).drop_first() =~= a.drop_first() + b);
        lemma_encode_concat(a.drop_first(), b);
        assert(encode_utf8(a + b) =~= encode_utf8(a) + encode_utf8(b));
    }
}

/// The pieces of a text, put together, are its UTF-8 bytes.
proof fn lemma_split_text(text: Seq<char>)
    ensures
        Seq::new(text.len(), |i: int| encode_utf8(seq![text[i]])).flatten() == encode_utf8(text),
    decreases text.len(),
{
    let pieces = Seq::new(text.len(), |i: int| encode_utf8(seq![text[i]]));
    if text.len() > 0 {
        let rest = text.drop_last();
        let rest_pieces = Seq::new(rest.len(), |i: int| encode_utf8(seq![rest[i]]));
        assert(pieces.drop_last() =~= rest_pieces);
        lemma_split_text(rest);
        pieces.lemma_flatten_and_flatten_alt_are_equivalent();
        rest_pieces.lemma_flatten_and_flatten_alt_are_equivalent();
        lemma_encode_concat(rest, seq![text.last()]);
        assert(rest + seq![text.last()] =~= text);
    }
}

/// Pacing only cuts the input: the pieces in which events are typed at a pace
/// hold, put together, exactly the bytes of the burst.
pub proof fn law_pacing_keeps_every_byte(events: Seq<Seq<char>>)
    requires
        typeable(events),
    ensures
        atoms(events).flatten() == burst(events),
        session_atoms(events, true).flatten() == session_atoms(events, false).flatten(),
    decreases events.len(),
{
    if events.len() == 0 {
        assert(atoms(events).flatten() =~= Seq::<u8>::empty());
    } else {
        let rest = events.drop_last();
        assert forall|i: int| 0 <= i < rest.len() implies event_bytes(#[trigger] rest[i]) is Some by {
            assert(rest[i] == events[i]);
        }
        law_pacing_keeps_every_byte(rest);
        let event = events.last();
        match typed_text(event) {
            Some(text) => {
                lemma_split_text(text);
            },
            None => {
                seq![key_bytes(event).unwrap()].lemma_flatten_one_element();
            },
        }
        vstd::seq_lib::lemma_flatten_concat(atoms(rest), event_atoms(event));
    }
    seq![burst(events)].lemma_flatten_one_element();
}

/// Events keep their order: the burst of two lists in a row is the burst of the
/// first and then that of the second, and so are the pieces.
pub proof fn law_events_keep_their_order(first: Seq<Seq<char>>, second: Seq<Seq<char>>)
    ensures
        burst(first + second) == burst(first) + burst(second),
        atoms(first + second) == atoms(first) + atoms(second),
    decreases second.len(),
{
    if second.len() == 0 {
        assert(first + second =~= first);
        assert(burst(first) + burst(second) =~= burst(first));
        assert(atoms(first) + atoms(second) =~= atoms(first));
    } else {
        assert((first + second).drop_last() =~= first + second.drop_last());
        law_events_keep_their_order(first, second.drop_last());
        assert(burst(first + second) =~= burst(first) + burst(second));
        assert(atoms(first + second) =~= atoms(first) + atoms(second));
    }
}

/// A text is typed as it stands: the bytes of `text:<value>` are the UTF-8 bytes
/// of the whole value, whatever it holds, and at a pace each of its characters is
/// a piece of its own.
pub proof fn law_text_is_typed_as_it_stands(text: Seq<char>)
    ensures
        event_bytes("text:"@ + text) == Some(encode_utf8(text)),
        burst(seq!["text:"@ + text]) == encode_utf8(text),
        atoms(seq!["text:"@ + text]).len() == text.len(),
        forall|i: int|
            0 <= i < text.len() ==> #[trigger] atoms(seq!["text:"@ + text])[i] == encode_utf8(
                seq![text[i]],
            ),
{
    reveal_strlit("text:");
    let event = "text:"@ + text;
    let events = seq![event];
    assert(event.subrange(0, 5) =~= "text:"@);
    assert(event.subrange(5, event.len() as int) =~= text);
    assert(events.drop_last() =~= Seq::<Seq<char>>::empty());
    reveal_with_fuel(burst, 2);
    reveal_with_fuel(atoms, 2);
    assert(burst(events) =~= encode_utf8(text));
    assert(atoms(events) =~= event_atoms(event));
}

/// A letter with control is the number of the letter in the alphabet, and it is
/// typed in one piece.
pub proof fn law_control_takes_a_letter_to_its_number(letter: char)
    requires
        'a' <= letter <= 'z',
    ensures
        event_bytes("ctrl-"@ + seq![letter]) == Some(seq![(letter as int - 0x60) as u8]),
        burst(seq!["ctrl-"@ + seq![letter]]) == seq![(letter as int - 0x60) as u8],
        atoms(seq!["ctrl-"@ + seq![letter]]) == seq![seq![(letter as int - 0x60) as u8]],
{
    reveal_strlit("text:");
    reveal_strlit("ctrl-");
    let event = "ctrl-"@ + seq![letter];
    let events = seq![event];
    assert(event.subrange(0, 5) =~= "ctrl-"@);
    assert(event.subrange(0, 5) != "text:"@) by {
        assert("ctrl-"@[0] != "text:"@[0]);
    }
    assert(events.drop_last() =~= Seq::<Seq<char>>::empty());
    reveal_with_fuel(burst, 2);
    reveal_with_fuel(atoms, 2);
    assert(burst(events) =~= seq![(letter as int - 0x60) as u8]);
    assert(atoms(events) =~= seq![seq![(letter as int - 0x60) as u8]]);
}

proof fn lemma_no_prefix(name: Seq<char>)
    requires
        name.len() >= 5,
        name[0] != 't' || name[1] != 'e',
        name[0] != 'c',
    ensures
        typed_text(name) is None,
        control_letter(name) is None,
{
    reveal_strlit("text:");
    reveal_strlit("ctrl-");
    let start = name.subrange(0, 5);
    assert(start[0] == name[0]);
    assert(start[1] == name[1]);
}

/// The keys send what a terminal sends for them.
pub proof fn law_keys_send_what_a_terminal_sends()
    ensures
        event_bytes("enter"@) == Some(seq![0x0du8]),
        event_bytes("escape"@) == Some(seq![0x1bu8]),
        event_bytes("esc"@) == Some(seq![0x1bu8]),
        event_bytes("up"@) == Some(seq![0x1bu8, 0x5b, 0x41]),
        event_bytes("down"@) == Some(seq![0x1bu8, 0x5b, 0x42]),
        event_bytes("left"@) == Some(seq![0x1bu8, 0x5b, 0x44]),
        event_bytes("right"@) == Some(seq![0x1bu8, 0x5b, 0x43]),
        event_bytes("tab"@) == Some(seq![0x09u8]),
        event_bytes("shift-tab"@) == Some(seq![0x1bu8, 0x5b, 0x5a]),
        event_bytes("backspace"@) == Some(seq![0x7fu8]),
        event_bytes("delete"@) == Some(seq![0x1bu8, 0x5b, 0x33, 0x7e]),
        event_bytes("home"@) == Some(seq![0x1bu8, 0x5b, 0x48]),
        event_bytes("end"@) == Some(seq![0x1bu8, 0x5b, 0x46]),
        event_bytes("page-up"@) == Some(seq![0x1bu8, 0x5b, 0x35, 0x7e]),
        event_bytes("page-down"@) == Some(seq![0x1bu8, 0x5b, 0x36, 0x7e]),
{
    reveal_strlit("text:");
    reveal_strlit("ctrl-");
    reveal_strlit("enter");
    reveal_strlit("escape");
    reveal_strlit("esc");
    reveal_strlit("up");
    reveal_strlit("down");
    reveal_strlit("left");
    reveal_strlit("right");
    reveal_strlit("tab");
    reveal_strlit("shift-tab");
    reveal_strlit("backspace");
    reveal_strlit("delete");
    reveal_strlit("home");
    reveal_strlit("end");
    reveal_strlit("page-up");
    reveal_strlit("page-down");
    lemma_no_prefix("enter"@);
    lemma_no_prefix("escape"@);
    lemma_no_prefix("right"@);
    lemma_no_prefix("shift-tab"@);
    lemma_no_prefix("backspace"@);
    lemma_no_prefix("delete"@);
    lemma_no_prefix("page-up"@);
    lemma_no_prefix("page-down"@);
    assert("enter"@[0] == 'e' && "enter"@[1] == 'n');
    assert("escape"@[0] == 'e' && "escape"@[1] == 's');
    assert("esc"@[0] == 'e' && "esc"@[1] == 's');
    assert("up"@[0] == 'u' && "up"@[1] == 'p');
    assert("down"@[0] == 'd' && "down"@[1] == 'o');
    assert("left"@[0] == 'l' && "left"@[1] == 'e');
    assert("right"@[0] == 'r' && "right"@[1] == 'i');
    assert("tab"@[0] == 't' && "tab"@[1] == 'a');
    assert("shift-tab"@[0] == 's' && "shift-tab"@[1] == 'h');
    assert("backspace"@[0] == 'b' && "backspace"@[1] == 'a');
    assert("delete"@[0] == 'd' && "delete"@[1] == 'e');
    assert("home"@[0] == 'h' && "home"@[1] == 'o');
    assert("end"@[0] == 'e' && "end"@[1] == 'n');
    assert("page-up"@[0] == 'p' && "page-up"@[1] == 'a');
    assert("page-down"@[0] == 'p' && "page-down"@[1] == 'a');
}

/// Nothing else can be typed: an event is a text, a letter with control or one of
/// the named keys, in just this spelling.
pub proof fn law_what_can_be_typed(event: Seq<char>)
    ensures
        event_bytes(event) is Some <==> {
            ||| exists|text: Seq<char>| event == #[trigger] ("text:"@ + text)
            ||| exists|letter: char|
                'a' <= letter <= 'z' && event == "ctrl-"@ + #[trigger] seq![letter]
            ||| event == "enter"@
            ||| event == "escape"@
            ||| event == "esc"@
            ||| event == "up"@
            ||| event == "down"@
            ||| event == "left"@
            ||| event == "right"@
            ||| event == "tab"@
            ||| event == "shift-tab"@
            ||| event == "backspace"@
            ||| event == "delete"@
            ||| event == "home"@
            ||| event == "end"@
            ||| event == "page-up"@
            ||| event == "page-down"@
        },
{
    reveal_strlit("text:");
    reveal_strlit("ctrl-");
    reveal_strlit("enter");
    reveal_strlit("escape");
    reveal_strlit("esc");
    reveal_strlit("up");
    reveal_strlit("down");
    reveal_strlit("left");
    reveal_strlit("right");
    reveal_strlit("tab");
    reveal_strlit("shift-tab");
    reveal_strlit("backspace");
    reveal_strlit("delete");
    reveal_strlit("home");
    reveal_strlit("end");
    reveal_strlit("page-up");
    reveal_strlit("page-down");
    law_keys_send_what_a_terminal_sends();
    if exists|text: Seq<char>| event == #[trigger] ("text:"@ + text) {
        let text = choose|text: Seq<char>| event == #[trigger] ("text:"@ + text);
        law_text_is_typed_as_it_stands(text);
    }
    if exists|letter: char| 'a' <= letter <= 'z' && event == "ctrl-"@ + #[trigger] seq![letter] {
        let letter = choose|letter: char|
            'a' <= letter <= 'z' && event == "ctrl-"@ + #[trigger] seq![letter];
        law_control_takes_a_letter_to_its_number(letter);
    }
    if typed_text(event) is Some {
        let text = event.subrange(5, event.len() as int);
        assert(event =~= "text:"@ + text);
    }
    if control_letter(event) is Some {
        assert(event =~= "ctrl-"@ + seq![event[5]]);
    }
}

/// Some events can be typed where each of them can, and where one cannot, the
/// first of those is named: neither what follows it nor what comes before it.
pub proof fn law_first_event_that_cannot_be_typed_is_named(
    good: Seq<Seq<char>>,
    event: Seq<char>,
    rest: Seq<Seq<char>>,
    i: int,
)
    requires
        typeable(good),
    ensures
        typeable(good + seq![event] + rest) <==> event_bytes(event) is Some && typeable(rest),
        event_bytes(event) is None ==> (first_untypeable(good + seq![event] + rest, i) <==> i
            == good.len()),
{
    let events = good + seq![event] + rest;
    assert(events[good.len() as int] == event);
    assert forall|k: int| 0 <= k < good.len() implies event_bytes(#[trigger] events[k]) is Some by {
        assert(events[k] == good[k]);
    }
    assert forall|k: int| 0 <= k < rest.len() implies #[trigger] rest[k] == events[good.len() + 1
        + k] by {}
    if event_bytes(event) is Some && typeable(rest) {
        assert forall|k: int| 0 <= k < events.len() implies event_bytes(
            #[trigger] events[k],
        ) is Some by {
            if k > good.len() {
                assert(events[k] == rest[k - good.len() - 1]);
            }
        }
    }
    if typeable(events) {
        assert forall|k: int| 0 <= k < rest.len() implies event_bytes(#[trigger] rest[k]) is Some by {
            assert(events[good.len() + 1 + k] == rest[k]);
        }
    }
}

/// Without a pace all input is one piece, the bytes of the events in a row; with
/// one it is the pieces of each event in a row. No events type nothing.
pub proof fn law_input_reaches_a_session_whole_or_in_pieces(events: Seq<Seq<char>>)
    ensures
        session_atoms(events, false).len() == 1,
        session_atoms(events, false)[0] == burst(events),
        session_atoms(events, true) == atoms(events),
        burst(Seq::empty()).len() == 0,
        atoms(Seq::empty()).len() == 0,
{
}

/// A key is typed whole, at a pace too: it is one piece, and that piece all of its
/// bytes.
pub proof fn law_keys_are_typed_whole(event: Seq<char>)
    requires
        event_bytes(event) is Some,
        forall|text: Seq<char>| event != #[trigger] ("text:"@ + text),
    ensures
        atoms(seq![event]).len() == 1,
        atoms(seq![event])[0] == event_bytes(event)->Some_0,
        burst(seq![event]) == event_bytes(event)->Some_0,
{
    reveal_strlit("text:");
    let events = seq![event];
    if typed_text(event) is Some {
        assert(event =~= "text:"@ + event.subrange(5, event.len() as int));
    }
    assert(events.drop_last() =~= Seq::<Seq<char>>::empty());
    reveal_with_fuel(burst, 2);
    reveal_with_fuel(atoms, 2);
    assert(burst(events) =~= event_bytes(event)->Some_0);
    assert(atoms(events) =~= event_atoms(event));
}

} // verus!

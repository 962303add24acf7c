//! What a terminal answers when an application asks about it.

use vstd::prelude::*;

verus! {

/// What OpenTUI applications ask at startup: what the terminal is, which version
/// it has, and whether it shows Kitty graphics.
#[derive(Clone, Copy, Debug, PartialEq, Eq, Structural)]
pub enum Probe {
    Attributes,
    Version,
    Graphics,
}

/// The bytes of a question.
pub open spec fn question(probe: Probe) -> Seq<u8> {
    match probe {
        // ESC [ c
        Probe::Attributes => seq![0x1b, 0x5b, 0x63],
        // ESC [ > 0 q
        Probe::Version => seq![0x1b, 0x5b, 0x3e, 0x30, 0x71],
        // ESC _ G i = 3 1 3 3 7
        Probe::Graphics => seq![0x1b, 0x5f, 0x47, 0x69, 0x3d, 0x33, 0x31, 0x33, 0x33, 0x37],
    }
}

/// The bytes of an answer. Kitty graphics are reported unavailable.
pub open spec fn reply(probe: Probe) -> Seq<u8> {
    match probe {
        // ESC [ ? 6 2 ; 2 2 c
        Probe::Attributes => seq![0x1b, 0x5b, 0x3f, 0x36, 0x32, 0x3b, 0x32, 0x32, 0x63],
        // ESC P > | cellshot ESC \
        Probe::Version => seq![
            0x1b, 0x50, 0x3e, 0x7c, 0x63, 0x65, 0x6c, 0x6c, 0x73, 0x68, 0x6f, 0x74, 0x1b, 0x5c,
        ],
        // ESC _ G i = 3 1 3 3 7 ; ENOTSUP ESC \
        Probe::Graphics => seq![
            0x1b, 0x5f, 0x47, 0x69, 0x3d, 0x33, 0x31, 0x33, 0x33, 0x37, 0x3b, 0x45, 0x4e, 0x4f,
            0x54, 0x53, 0x55, 0x50, 0x1b, 0x5c,
        ],
    }
}

/// Whether a question is asked in some output.
pub open spec fn asked(output: Seq<u8>, probe: Probe) -> bool {
    exists|at: int|
        0 <= at <= output.len() - question(probe).len() && #[trigger] output.subrange(
            at,
            at + question(probe).len(),
        ) == question(probe)
}

/// The answer to one question, where it is asked.
pub open spec fn answer_to(output: Seq<u8>, probe: Probe) -> Seq<u8> {
    if asked(output, probe) {
        reply(probe)
    } else {
        Seq::empty()
    }
}

/// The answer to some output: to each question that is asked in it, where the
/// terminal answers at all.
pub open spec fn answered(output: Seq<u8>, answers: bool) -> Seq<u8> {
    if answers {
        answer_to(output, Probe::Attributes) + answer_to(output, Probe::Version) + answer_to(
            output,
            Probe::Graphics,
        )
    } else {
        Seq::empty()
    }
}

fn question_bytes(probe: Probe) -> (bytes: Vec<u8>)
    ensures
        bytes@ == question(probe),
{
    let bytes: Vec<u8> = match probe {
        Probe::Attributes => vec![0x1b, 0x5b, 0x63],
        Probe::Version => vec![0x1b, 0x5b, 0x3e, 0x30, 0x71],
        Probe::Graphics => vec![0x1b, 0x5f, 0x47, 0x69, 0x3d, 0x33, 0x31, 0x33, 0x33, 0x37],
    };
    assert(bytes@ =~= question(probe));
    bytes
}

fn reply_bytes(probe: Probe) -> (bytes: Vec<u8>)
    ensures
        bytes@ == reply(probe),
{
    let bytes: Vec<u8> = match probe {
        Probe::Attributes => vec![0x1b, 0x5b, 0x3f, 0x36, 0x32, 0x3b, 0x32, 0x32, 0x63],
        Probe::Version => vec![
            0x1b, 0x50, 0x3e, 0x7c, 0x63, 0x65, 0x6c, 0x6c, 0x73, 0x68, 0x6f, 0x74, 0x1b, 0x5c,
        ],
        Probe::Graphics => vec![
            0x1b, 0x5f, 0x47, 0x69, 0x3d, 0x33, 0x31, 0x33, 0x33, 0x37, 0x3b, 0x45, 0x4e, 0x4f,
            0x54, 0x53, 0x55, 0x50, 0x1b, 0x5c,
        ],
    };
    assert(bytes@ =~= reply(probe));
    bytes
}

fn asks(output: &[u8], probe: Probe) -> (found: bool)
    ensures
        found == asked(output@, probe),
{
    let wanted = question_bytes(probe);
    let length: usize = output.len();
    let mut at: usize = 0;
    while at < length && length - at >= wanted.len()
        invariant
            length == output@.len(),
            wanted@ == question(probe),
            wanted@.len() > 0,
            at <= length,
            forall|k: int|
                0 <= k < at ==> #[trigger] output@.subrange(k, k + question(probe).len()) != question(
                    probe,
                ) || k + question(probe).len() > output@.len(),
        decreases length - at,
    {
        let mut same: usize = 0;
        while same < wanted.len() && output[at + same] == wanted[same]
            invariant
                length == output@.len(),
                same <= wanted@.len(),
                at + wanted@.len() <= length,
                forall|i: int| 0 <= i < same ==> output@[at + i] == #[trigger] wanted@[i],
            decreases wanted@.len() - same,
        {
            same += 1;
        }
        let ghost window = output@.subrange(at as int, at + wanted@.len());
        if same == wanted.len() {
            assert(window =~= question(probe));
            return true;
        }
        assert(window[same as int] != wanted@[same as int]);
        at += 1;
    }
    false
}

fn answer_one(output: &[u8], probe: Probe) -> (answer: Vec<u8>)
    ensures
        answer@ == answer_to(output@, probe),
{
    if asks(output, probe) {
        reply_bytes(probe)
    } else {
        let nothing: Vec<u8> = Vec::new();
        assert(nothing@ =~= Seq::<u8>::empty());
        nothing
    }
}

/// What the terminal answers to some output.
pub fn host_answer(output: &[u8], answers: bool) -> (answer: Vec<u8>)
    ensures
        answer@ == answered(output@, answers),
{
    let mut answer: Vec<u8> = Vec::new();
    if answers {
        answer = answer_one(output, Probe::Attributes);
        answer.extend_from_slice(answer_one(output, Probe::Version).as_slice());
        answer.extend_from_slice(answer_one(output, Probe::Graphics).as_slice());
    }
    assert(answer@ =~= answered(output@, answers));
    answer
}

/// A terminal that was not told to answer stays silent, and so does one that was
/// not asked anything.
pub proof fn law_host_speaks_only_when_asked(output: Seq<u8>, answers: bool)
    ensures
        answered(output, answers).len() > 0 <==> answers && (asked(output, Probe::Attributes)
            || asked(output, Probe::Version) || asked(output, Probe::Graphics)),
{
}

/// Whether some bytes stand somewhere in some output.
pub open spec fn holds(output: Seq<u8>, bytes: Seq<u8>) -> bool {
    exists|before: Seq<u8>, behind: Seq<u8>| output == #[trigger] (before + bytes + behind)
}

/// The answer to some bytes, where they stand in some output.
pub open spec fn echoed(output: Seq<u8>, bytes: Seq<u8>, answer: Seq<u8>) -> Seq<u8> {
    if holds(output, bytes) {
        answer
    } else {
        Seq::empty()
    }
}

proof fn lemma_asked(output: Seq<u8>, probe: Probe)
    ensures
        answer_to(output, probe) == echoed(output, question(probe), reply(probe)),
{
    let bytes = question(probe);
    if asked(output, probe) {
        let at = choose|at: int|
            0 <= at <= output.len() - bytes.len() && #[trigger] output.subrange(
                at,
                at + bytes.len(),
            ) == bytes;
        assert(output =~= output.take(at) + bytes + output.skip(at + bytes.len()));
        assert(holds(output, bytes));
    }
    if holds(output, bytes) {
        let (before, behind) = choose|before: Seq<u8>, behind: Seq<u8>|
            output == #[trigger] (before + bytes + behind);
        let at = before.len() as int;
        assert(output.subrange(at, at + bytes.len()) =~= bytes);
        assert(asked(output, probe));
    }
}

/// Each question is answered wherever it stands in the output, once, and by its
/// own answer: to `ESC [ c` first, that the terminal is a VT220 with colour, then
/// to `ESC [ > 0 q` its name, and then to a query of Kitty graphics that there are
/// none. A terminal that was not told to answer says nothing.
pub proof fn law_each_question_has_its_answer(output: Seq<u8>)
    ensures
        answered(output, false).len() == 0,
        answered(output, true) == echoed(
            output,
            seq![0x1b, 0x5b, 0x63],
            seq![0x1b, 0x5b, 0x3f, 0x36, 0x32, 0x3b, 0x32, 0x32, 0x63],
        ) + echoed(
            output,
            seq![0x1b, 0x5b, 0x3e, 0x30, 0x71],
            seq![0x1b, 0x50, 0x3e, 0x7c, 0x63, 0x65, 0x6c, 0x6c, 0x73, 0x68, 0x6f, 0x74, 0x1b, 0x5c],
        ) + echoed(
            output,
            seq![0x1b, 0x5f, 0x47, 0x69, 0x3d, 0x33, 0x31, 0x33, 0x33, 0x37],
            seq![
                0x1b, 0x5f, 0x47, 0x69, 0x3d, 0x33, 0x31, 0x33, 0x33, 0x37, 0x3b, 0x45, 0x4e, 0x4f,
                0x54, 0x53, 0x55, 0x50, 0x1b, 0x5c,
            ],
        ),
{
    lemma_asked(output, Probe::Attributes);
    lemma_asked(output, Probe::Version);
    lemma_asked(output, Probe::Graphics);
}

} // verus!

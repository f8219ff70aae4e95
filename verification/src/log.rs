//! The text of the kernel's log messages: each message is written after the name of its
//! verbosity level, in that level's color, and its continuation lines are aligned with it.
use vstd::prelude::*;
use crate::sys::Verbosity;

verus! {

/// The line feed.
pub const NEWLINE: u8 = 0x0A;

/// The bytes written before a message: the right-aligned name of its level in bold color, then
/// the escape sequence that gives the text its color, that is `"  \x1B[1;31merror\x1B[0m
/// \x1B[31m"`, `"   \x1B[1;33mwarn\x1B[0m  \x1B[33m"`, `"   \x1B[1;34minfo\x1B[0m  \x1B[0m"`
/// and `"  \x1B[1;30mtrace\x1B[0m  \x1B[90m"`.
pub open spec fn ansi_prefix(v: Verbosity) -> Seq<u8> {
    match v {
        Verbosity::Error => seq![
            0x20u8, 0x20, 0x1B, 0x5B, 0x31, 0x3B, 0x33, 0x31, 0x6D, 0x65, 0x72, 0x72, 0x6F, 0x72,
            0x1B, 0x5B, 0x30, 0x6D, 0x20, 0x20, 0x1B, 0x5B, 0x33, 0x31, 0x6D,
        ],
        Verbosity::Warn => seq![
            0x20u8, 0x20, 0x20, 0x1B, 0x5B, 0x31, 0x3B, 0x33, 0x33, 0x6D, 0x77, 0x61, 0x72, 0x6E,
            0x1B, 0x5B, 0x30, 0x6D, 0x20, 0x20, 0x1B, 0x5B, 0x33, 0x33, 0x6D,
        ],
        Verbosity::Info => seq![
            0x20u8, 0x20, 0x20, 0x1B, 0x5B, 0x31, 0x3B, 0x33, 0x34, 0x6D, 0x69, 0x6E, 0x66, 0x6F,
            0x1B, 0x5B, 0x30, 0x6D, 0x20, 0x20, 0x1B, 0x5B, 0x30, 0x6D,
        ],
        Verbosity::Trace => seq![
            0x20u8, 0x20, 0x1B, 0x5B, 0x31, 0x3B, 0x33, 0x30, 0x6D, 0x74, 0x72, 0x61, 0x63, 0x65,
            0x1B, 0x5B, 0x30, 0x6D, 0x20, 0x20, 0x1B, 0x5B, 0x39, 0x30, 0x6D,
        ],
    }
}

/// The bytes written after a message: the escape sequence `"\x1B[0m"` that resets the color,
/// except after an information, whose text keeps the default color.
pub open spec fn ansi_suffix(v: Verbosity) -> Seq<u8> {
    match v {
        Verbosity::Info => seq![],
        _ => seq![0x1Bu8, 0x5B, 0x30, 0x6D],
    }
}

/// The nine spaces that align a continuation line with the text of the first line.
pub open spec fn continuation_indent() -> Seq<u8> {
    Seq::new(9, |i: int| 0x20u8)
}

/// What a byte of the message becomes: a line feed is followed by the continuation indent.
pub open spec fn indented_byte(b: u8) -> Seq<u8> {
    if b == NEWLINE {
        seq![NEWLINE] + continuation_indent()
    } else {
        seq![b]
    }
}

/// The text of a message with each line feed followed by the continuation indent.
pub open spec fn indented(text: Seq<u8>) -> Seq<u8>
    decreases text.len(),
{
    if text.len() == 0 {
        seq![]
    } else {
        indented(text.drop_last()) + indented_byte(text.last())
    }
}

/// The text of a message is indented the same whether it is written whole or in pieces, as the
/// formatting machinery hands it over.
pub proof fn lemma_indented_concat(a: Seq<u8>, b: Seq<u8>)
    ensures
        indented(a + b) == indented(a) + indented(b),
    decreases b.len(),
{
    if b.len() == 0 {
        assert(a + b =~= a);
        assert(indented(a) + indented(b) =~= indented(a));
    } else {
        assert((a + b).drop_last() =~= a + b.drop_last());
        assert((a + b).last() == b.last());
        lemma_indented_concat(a, b.drop_last());
        assert(indented(a + b) =~= indented(a) + indented(b));
    }
}

/// Returns the bytes written before a message of the level `v`.
pub fn ansi_prefix_bytes(v: Verbosity) -> (r: Vec<u8>)
    ensures
        r@ == ansi_prefix(v),
{
    let r = match v {
        Verbosity::Error => vec![
            0x20u8, 0x20, 0x1B, 0x5B, 0x31, 0x3B, 0x33, 0x31, 0x6D, 0x65, 0x72, 0x72, 0x6F, 0x72,
            0x1B, 0x5B, 0x30, 0x6D, 0x20, 0x20, 0x1B, 0x5B, 0x33, 0x31, 0x6D,
        ],
        Verbosity::Warn => vec![
            0x20u8, 0x20, 0x20, 0x1B, 0x5B, 0x31, 0x3B, 0x33, 0x33, 0x6D, 0x77, 0x61, 0x72, 0x6E,
            0x1B, 0x5B, 0x30, 0x6D, 0x20, 0x20, 0x1B, 0x5B, 0x33, 0x33, 0x6D,
        ],
        Verbosity::Info => vec![
            0x20u8, 0x20, 0x20, 0x1B, 0x5B, 0x31, 0x3B, 0x33, 0x34, 0x6D, 0x69, 0x6E, 0x66, 0x6F,
            0x1B, 0x5B, 0x30, 0x6D, 0x20, 0x20, 0x1B, 0x5B, 0x30, 0x6D,
        ],
        Verbosity::Trace => vec![
            0x20u8, 0x20, 0x1B, 0x5B, 0x31, 0x3B, 0x33, 0x30, 0x6D, 0x74, 0x72, 0x61, 0x63, 0x65,
            0x1B, 0x5B, 0x30, 0x6D, 0x20, 0x20, 0x1B, 0x5B, 0x39, 0x30, 0x6D,
        ],
    };
    assert(r@ =~= ansi_prefix(v));
    r
}

/// Appends the text of a message to `out`, each line feed followed by the continuation indent.
pub fn write_indented(out: &mut Vec<u8>, text: &[u8])
    ensures
        final(out)@ == old(out)@ + indented(text@),
{
    let mut i: usize = 0;
    assert(text@.take(0) =~= Seq::<u8>::empty());
    assert(old(out)@ + indented(text@.take(0)) =~= old(out)@);
    while i < text.len()
        invariant
            i <= text.len(),
            out@ == old(out)@ + indented(text@.take(i as int)),
        decreases text.len() - i,
    {
        let b = text[i];
        let ghost before = out@;
        out.push(b);
        if b == NEWLINE {
            let mut k: usize = 0;
            while k < 9
                invariant
                    k <= 9,
                    out@ == before + seq![NEWLINE] + Seq::new(k as nat, |j: int| 0x20u8),
                decreases 9 - k,
            {
                out.push(0x20);
                k = k + 1;
                assert(out@ =~= before + seq![NEWLINE] + Seq::new(k as nat, |j: int| 0x20u8));
            }
        }
        assert(out@ =~= before + indented_byte(b));
        assert(text@.take(i + 1).drop_last() =~= text@.take(i as int));
        i = i + 1;
        assert(out@ =~= old(out)@ + indented(text@.take(i as int)));
    }
    assert(text@.take(i as int) =~= text@);
}

/// A message of the kernel's log.
#[derive(Debug, Clone)]
pub struct Message {
    /// The text of the message.
    pub message: Vec<u8>,
    /// The verbosity level of the message.
    pub verbosity: Verbosity,
    /// The file in which the message was generated.
    pub file: &'static str,
    /// The line at which the message was generated.
    pub line: u32,
    /// The column at which the message was generated.
    pub column: u32,
}

/// The message as a terminal shows it: the prefix of its level, its indented text, the suffix.
pub open spec fn with_ansi_colors_of(v: Verbosity, text: Seq<u8>) -> Seq<u8> {
    ansi_prefix(v) + indented(text) + ansi_suffix(v)
}

impl Message {
    /// Returns the message as a terminal shows it, in the colors of its level, its continuation
    /// lines aligned with the first.
    pub fn with_ansi_colors(&self) -> (r: Vec<u8>)
        ensures
            r@ == with_ansi_colors_of(self.verbosity, self.message@),
    {
        let mut out = ansi_prefix_bytes(self.verbosity);
        write_indented(&mut out, self.message.as_slice());
        match self.verbosity {
            Verbosity::Info => {},
            _ => {
                out.push(0x1B);
                out.push(0x5B);
                out.push(0x30);
                out.push(0x6D);
            },
        }
        assert(out@ =~= with_ansi_colors_of(self.verbosity, self.message@));
        out
    }

    /// Returns the line written to the serial port for this message: the message in colors and
    /// a line feed.
    pub fn log(&self) -> (r: Vec<u8>)
        ensures
            r@ == with_ansi_colors_of(self.verbosity, self.message@).push(NEWLINE),
    {
        let mut out = self.with_ansi_colors();
        out.push(NEWLINE);
        out
    }
}

} // verus!

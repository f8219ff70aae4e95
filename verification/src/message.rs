//! The text that the kernel logs for the bytes a process hands it: the bytes are meant to be
//! UTF-8, and each sequence that is not is shown as a replacement character.
use vstd::prelude::*;
use vstd::utf8::{
    codepoint_width_3, length_of_first_codepoint, pop_first_scalar, valid_first_scalar,
    valid_utf8,
};

verus! {

/// The greatest `i <= k` such that the first `i` bytes are UTF-8 (0 when `k <= 0`).
pub open spec fn valid_prefix_within(bytes: Seq<u8>, k: int) -> int
    decreases k,
{
    if k <= 0 {
        0
    } else if valid_utf8(bytes.take(k)) {
        k
    } else {
        valid_prefix_within(bytes, k - 1)
    }
}

/// The length of the longest prefix of `bytes` that is UTF-8.
pub open spec fn valid_up_to(bytes: Seq<u8>) -> int {
    valid_prefix_within(bytes, bytes.len() as int)
}

/// The length of the invalid sequence that `core::str::from_utf8` reports for `bytes`, when
/// `bytes` are not UTF-8 and do not merely end inside a sequence.
pub uninterp spec fn utf8_error_len(bytes: Seq<u8>) -> Option<usize>;

/// The UTF-8 encoding of U+FFFD, the replacement character.
pub open spec fn replacement_bytes() -> Seq<u8> {
    seq![0xEFu8, 0xBFu8, 0xBDu8]
}

/// The text shown for `bytes`: the longest UTF-8 prefix, then a replacement character in place
/// of the invalid sequence that follows, then the text shown for the rest; when the bytes end
/// inside a sequence, the text ends with the replacement character.
pub open spec fn lossy_utf8(bytes: Seq<u8>) -> Seq<u8>
    decreases bytes.len(),
{
    if valid_utf8(bytes) {
        bytes
    } else {
        let v = valid_up_to(bytes);
        match utf8_error_len(bytes) {
            Some(n) => if 1 <= n && 0 <= v && v + n <= bytes.len() {
                bytes.take(v) + replacement_bytes() + lossy_utf8(bytes.skip(v + n))
            } else {
                bytes.take(v) + replacement_bytes()
            },
            None => bytes.take(v) + replacement_bytes(),
        }
    }
}

/// The first `valid_prefix_within(bytes, k)` bytes are UTF-8, and no longer prefix of at most
/// `k` bytes is.
pub proof fn lemma_valid_prefix_within(bytes: Seq<u8>, k: int)
    requires
        0 <= k <= bytes.len(),
    ensures
        0 <= valid_prefix_within(bytes, k) <= k,
        valid_utf8(bytes.take(valid_prefix_within(bytes, k))),
        forall|i: int|
            valid_prefix_within(bytes, k) < i <= k ==> !valid_utf8(#[trigger] bytes.take(i)),
    decreases k,
{
    if k == 0 {
        assert(bytes.take(0).len() == 0);
    } else if !valid_utf8(bytes.take(k)) {
        lemma_valid_prefix_within(bytes, k - 1);
    }
}

/// Two UTF-8 byte strings put one after the other are UTF-8.
proof fn lemma_valid_concat(a: Seq<u8>, b: Seq<u8>)
    requires
        valid_utf8(a),
        valid_utf8(b),
    ensures
        valid_utf8(a + b),
    decreases a.len(),
{
    if a.len() == 0 {
        assert(a + b =~= b);
    } else {
        let ab = a + b;
        assert(ab[0] == a[0]);
        assert(a.len() >= 2 ==> ab[1] == a[1]);
        assert(a.len() >= 3 ==> ab[2] == a[2]);
        assert(a.len() >= 4 ==> ab[3] == a[3]);
        assert(length_of_first_codepoint(ab) == length_of_first_codepoint(a));
        assert(valid_first_scalar(ab));
        assert(pop_first_scalar(ab) =~= pop_first_scalar(a) + b);
        lemma_valid_concat(pop_first_scalar(a), b);
    }
}

/// The encoding of the replacement character is UTF-8.
proof fn lemma_replacement_valid()
    ensures
        valid_utf8(replacement_bytes()),
{
    let r = replacement_bytes();
    assert(codepoint_width_3(0xEFu8, 0xBFu8, 0xBDu8) == 0xFFFDu32) by (bit_vector);
    assert(valid_first_scalar(r));
    assert(pop_first_scalar(r).len() == 0);
    assert(valid_utf8(pop_first_scalar(r)));
}

/// Whatever bytes a process hands the kernel, the text logged for them is UTF-8.
pub proof fn lemma_lossy_text_is_utf8(bytes: Seq<u8>)
    ensures
        valid_utf8(lossy_utf8(bytes)),
    decreases bytes.len(),
{
    if !valid_utf8(bytes) {
        let v = valid_up_to(bytes);
        lemma_valid_prefix_within(bytes, bytes.len() as int);
        lemma_replacement_valid();
        lemma_valid_concat(bytes.take(v), replacement_bytes());
        match utf8_error_len(bytes) {
            Some(n) => {
                if 1 <= n && 0 <= v && v + n <= bytes.len() {
                    lemma_lossy_text_is_utf8(bytes.skip(v + n));
                    lemma_valid_concat(
                        bytes.take(v) + replacement_bytes(),
                        lossy_utf8(bytes.skip(v + n)),
                    );
                }
            },
            None => {},
        }
    }
}

/// Where a byte string stops being UTF-8.
#[derive(Debug, Clone, Copy)]
pub struct Utf8Break {
    /// The length of the longest prefix that is UTF-8.
    pub valid_up_to: usize,
    /// The length of the invalid sequence that starts there, or `None` when the bytes end
    /// inside a sequence.
    pub error_len: Option<usize>,
}

/// Checks `bytes` with `core::str::from_utf8`, whose documentation says: the check fails
/// exactly on bytes that are not UTF-8; `valid_up_to` is then the greatest index up to which
/// the bytes are UTF-8; `error_len` is `None` when the input ends 1 to 3 bytes past that
/// index, and otherwise the length of the unexpected sequence that starts at it. Which length
/// that is is not stated here: it is named by [`utf8_error_len`].
#[verifier::external_body]
fn check_utf8(bytes: &[u8]) -> (r: Option<Utf8Break>)
    ensures
        r is None <==> valid_utf8(bytes@),
        r matches Some(b) ==> b.valid_up_to == valid_up_to(bytes@) && b.error_len
            == utf8_error_len(bytes@),
        r matches Some(b) ==> match b.error_len {
            Some(n) => 1 <= n && b.valid_up_to + n <= bytes@.len(),
            None => 1 <= bytes@.len() - b.valid_up_to <= 3,
        },
{
    match core::str::from_utf8(bytes) {
        Ok(_) => None,
        Err(e) => Some(Utf8Break { valid_up_to: e.valid_up_to(), error_len: e.error_len() }),
    }
}

/// Appends `bytes` to `out`.
fn append_bytes(out: &mut Vec<u8>, bytes: &[u8])
    ensures
        final(out)@ == old(out)@ + bytes@,
{
    let mut i: usize = 0;
    while i < bytes.len()
        invariant
            i <= bytes.len(),
            out@ == old(out)@ + bytes@.take(i as int),
        decreases bytes.len() - i,
    {
        out.push(bytes[i]);
        i = i + 1;
        assert(out@ =~= old(out)@ + bytes@.take(i as int));
    }
    assert(bytes@.take(i as int) =~= bytes@);
}

/// Appends to `out` the text shown for the bytes `rest`, given where they stop being UTF-8:
/// all of them when they are UTF-8; else their valid prefix and a replacement character.
/// Returns how many bytes were consumed when the text goes on after an invalid sequence.
pub fn lossy_step(out: &mut Vec<u8>, rest: &[u8], brk: Option<Utf8Break>) -> (r: Option<usize>)
    requires
        brk matches Some(b) ==> b.valid_up_to <= rest@.len() && (b.error_len matches Some(n)
            ==> b.valid_up_to + n <= rest@.len()),
    ensures
        match brk {
            None => final(out)@ == old(out)@ + rest@ && r is None,
            Some(b) => {
                &&& final(out)@ == old(out)@ + rest@.take(b.valid_up_to as int)
                    + replacement_bytes()
                &&& r == match b.error_len {
                    Some(n) => Some((b.valid_up_to + n) as usize),
                    None => None::<usize>,
                }
            },
        },
{
    match brk {
        None => {
            append_bytes(out, rest);
            None
        },
        Some(b) => {
            let (valid, _) = rest.split_at(b.valid_up_to);
            append_bytes(out, valid);
            out.push(0xEF);
            out.push(0xBF);
            out.push(0xBD);
            assert(out@ =~= old(out)@ + rest@.take(b.valid_up_to as int) + replacement_bytes());
            match b.error_len {
                Some(n) => {
                    assert(b.valid_up_to + n <= rest.len());
                    Some(b.valid_up_to + n)
                },
                None => None,
            }
        },
    }
}

/// Returns the text the kernel logs for the bytes `data` that a process handed it.
pub fn lossy_text(data: &[u8]) -> (r: Vec<u8>)
    ensures
        r@ == lossy_utf8(data@),
        valid_utf8(r@),
{
    proof {
        lemma_lossy_text_is_utf8(data@);
    }
    let mut out: Vec<u8> = Vec::new();
    let mut pos: usize = 0;
    assert(data@.skip(0) =~= data@);
    loop
        invariant
            pos <= data.len(),
            valid_utf8(lossy_utf8(data@)),
            out@ + lossy_utf8(data@.skip(pos as int)) == lossy_utf8(data@),
        decreases data.len() - pos,
    {
        let (_, rest) = data.split_at(pos);
        assert(rest@ =~= data@.skip(pos as int));
        let brk = check_utf8(rest);
        let ghost before = out@;
        let step = lossy_step(&mut out, rest, brk);
        match step {
            None => {
                assert(out@ =~= before + lossy_utf8(rest@));
                assert(out@ =~= lossy_utf8(data@)) by {
                    assert(lossy_utf8(data@.skip(pos as int)) == lossy_utf8(rest@));
                    assert(before + lossy_utf8(rest@) =~= lossy_utf8(data@));
                }
                return out;
            },
            Some(k) => {
                let ghost b = brk->0;
                let ghost n = b.error_len->0;
                assert(rest@.skip(b.valid_up_to + n) =~= data@.skip(pos + k));
                assert(lossy_utf8(rest@) == rest@.take(b.valid_up_to as int) + replacement_bytes()
                    + lossy_utf8(data@.skip(pos + k)));
                assert(out@ + lossy_utf8(data@.skip(pos + k)) =~= before + lossy_utf8(rest@));
                pos = pos + k;
            },
        }
    }
}

} // verus!

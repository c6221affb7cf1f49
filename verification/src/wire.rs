//! The mathematical model of the RFC 1035 name encoding.
//!
//! A name is read inside a *window* of the packet: at first the caller's
//! candidate slice, and after each compression pointer a suffix of the
//! original buffer.  All spec functions here walk a window from a position
//! with a `bound`: the strict upper limit the next pointer target must stay
//! under.  The bound starts at the buffer length and becomes the target of
//! each pointer taken, so every chain of pointers is strictly decreasing and
//! finite.
//!
//! [`scan_rec`] is the validation pass: it returns the length of the name's
//! own encoding inside the starting window (through the terminating zero
//! label, or through the first pointer plus its two bytes) or the first
//! decode error.  [`expand_rec`] is the value of a valid name: all label
//! bytes, joined by `.` separators, with pointers followed transparently.
//! [`render_rec`] is the textual walk, which writes a separator before every
//! label or pointer that does not stand at the start of its window.

use vstd::prelude::*;
use vstd::utf8::valid_utf8;

use crate::Error;

verus! {

/// The 14-bit target of a compression pointer whose two bytes are `b0`, `b1`
/// (`b0` has top bits `11`).
pub open spec fn ptr_target(b0: u8, b1: u8) -> int {
    (b0 - 192) * 256 + b1
}

/// Validation of a name read inside window `w` from position `pos`, against
/// the full buffer `o`, with every pointer target required to lie under
/// `bound`.
///
/// Returns `Ok(end)` where `end` is the exclusive end, in the window the walk
/// *started* in, of the name's own encoding: one past the terminating zero
/// label if no pointer was taken there, or one past the two bytes of the
/// first pointer.  Later windows only contribute validation; their end
/// positions are discarded.  Returns the first error otherwise, in the order
/// the bytes are read.
pub open spec fn scan_rec(o: Seq<u8>, w: Seq<u8>, pos: int, bound: int) -> Result<int, Error>
    decreases bound, w.len() - pos,
{
    if pos >= w.len() {
        Err(Error::UnexpectedEOF)
    } else {
        let b = w[pos];
        if b == 0 {
            Ok(pos + 1)
        } else if b < 64 {
            let end = pos + 1 + b;
            if w.len() < end {
                Err(Error::UnexpectedEOF)
            } else if !valid_utf8(w.subrange(pos + 1, end)) {
                Err(Error::LabelIsNotUtf8)
            } else if w.len() <= end {
                Err(Error::UnexpectedEOF)
            } else {
                scan_rec(o, w, end, bound)
            }
        } else if b >= 192 {
            if pos + 2 > w.len() {
                Err(Error::UnexpectedEOF)
            } else {
                let off = ptr_target(b, w[pos + 1]);
                if off >= bound {
                    Err(Error::BadPointer)
                } else {
                    match scan_rec(o, o.skip(off), 0, off) {
                        Ok(_) => Ok(pos + 2),
                        Err(e) => Err(e),
                    }
                }
            }
        } else {
            Err(Error::UnknownLabelFormat)
        }
    }
}

/// The expanded value of a valid name: all label bytes in order, one `.`
/// (byte 46) between consecutive labels, no leading or trailing separator.
/// Meaningful only where `scan_rec` succeeds; empty junk otherwise.
pub open spec fn expand_rec(o: Seq<u8>, w: Seq<u8>, pos: int, bound: int) -> Seq<u8>
    decreases bound, w.len() - pos,
{
    if pos >= w.len() {
        Seq::empty()
    } else {
        let b = w[pos];
        if b == 0 {
            Seq::empty()
        } else if b < 64 {
            let end = pos + 1 + b;
            if w.len() <= end {
                Seq::empty()
            } else {
                let rest = expand_rec(o, w, end, bound);
                if rest.len() == 0 {
                    w.subrange(pos + 1, end)
                } else {
                    w.subrange(pos + 1, end) + seq![46u8] + rest
                }
            }
        } else if b >= 192 {
            if pos + 2 > w.len() {
                Seq::empty()
            } else {
                let off = ptr_target(b, w[pos + 1]);
                if off >= bound {
                    Seq::empty()
                } else {
                    expand_rec(o, o.skip(off), 0, off)
                }
            }
        } else {
            Seq::empty()
        }
    }
}

/// The textual walk over a valid name, as raw bytes: a `.` is written before
/// every label, and before every pointer taken, that does not stand at the
/// start of its window.  It equals [`expand_rec`] except that a pointer taken
/// after a label whose whole target expands to nothing leaves a trailing
/// separator behind.  Meaningful only where `scan_rec` succeeds.
pub open spec fn render_rec(o: Seq<u8>, w: Seq<u8>, pos: int, bound: int) -> Seq<u8>
    decreases bound, w.len() - pos,
{
    if pos >= w.len() {
        Seq::empty()
    } else {
        let b = w[pos];
        let dot: Seq<u8> = if pos == 0 {
            Seq::empty()
        } else {
            seq![46u8]
        };
        if b == 0 {
            Seq::empty()
        } else if b < 64 {
            let end = pos + 1 + b;
            if w.len() < end {
                Seq::empty()
            } else {
                dot + w.subrange(pos + 1, end) + render_rec(o, w, end, bound)
            }
        } else if b >= 192 {
            if pos + 2 > w.len() {
                Seq::empty()
            } else {
                let off = ptr_target(b, w[pos + 1]);
                if off >= bound {
                    Seq::empty()
                } else {
                    dot + render_rec(o, o.skip(off), 0, off)
                }
            }
        } else {
            Seq::empty()
        }
    }
}

/// True when the textual walk of a valid name leaves a trailing separator
/// behind: some pointer that follows at least one label in its window leads
/// to a chain that expands to nothing.  See [`lemma_render_vs_expand`].
pub open spec fn dangling_dot(o: Seq<u8>, w: Seq<u8>, pos: int, bound: int) -> bool
    decreases bound, w.len() - pos,
{
    if pos >= w.len() {
        false
    } else {
        let b = w[pos];
        if b == 0 {
            false
        } else if b < 64 {
            let end = pos + 1 + b;
            if w.len() <= end {
                false
            } else {
                dangling_dot(o, w, end, bound)
            }
        } else if b >= 192 {
            if pos + 2 > w.len() {
                false
            } else {
                let off = ptr_target(b, w[pos + 1]);
                if off >= bound {
                    false
                } else if expand_rec(o, o.skip(off), 0, off).len() == 0 {
                    pos != 0
                } else {
                    dangling_dot(o, o.skip(off), 0, off)
                }
            }
        } else {
            false
        }
    }
}

/// A chain that expands to nothing and is walked from the start of its
/// window writes no separator at all.
proof fn lemma_no_dangling_when_empty(o: Seq<u8>, w: Seq<u8>, pos: int, bound: int)
    requires
        0 <= pos,
        scan_rec(o, w, pos, bound) is Ok,
        expand_rec(o, w, pos, bound).len() == 0,
        pos == 0 || w[pos] == 0,
    ensures
        !dangling_dot(o, w, pos, bound),
{
}

/// How the textual walk relates to the expanded value, for every valid
/// window: the rendering is the expansion, prefixed by one separator when
/// the walk does not start its window (a label came before in the same
/// window), and suffixed by one exactly when a [`dangling_dot`] occurs.
pub proof fn lemma_render_vs_expand(o: Seq<u8>, w: Seq<u8>, pos: int, bound: int)
    requires
        0 <= pos,
        scan_rec(o, w, pos, bound) is Ok,
    ensures
        render_rec(o, w, pos, bound) == (if expand_rec(o, w, pos, bound).len() > 0 && pos != 0 {
            seq![46u8]
        } else {
            Seq::<u8>::empty()
        }) + expand_rec(o, w, pos, bound) + (if dangling_dot(o, w, pos, bound) {
            seq![46u8]
        } else {
            Seq::<u8>::empty()
        }),
    decreases bound, w.len() - pos,
{
    let rend = render_rec(o, w, pos, bound);
    let exp = expand_rec(o, w, pos, bound);
    let lead: Seq<u8> = if exp.len() > 0 && pos != 0 {
        seq![46u8]
    } else {
        Seq::empty()
    };
    let trail: Seq<u8> = if dangling_dot(o, w, pos, bound) {
        seq![46u8]
    } else {
        Seq::empty()
    };
    let b = w[pos];
    if b == 0 {
        assert(rend =~= lead + exp + trail);
    } else if b < 64 {
        let end = pos + 1 + b;
        lemma_render_vs_expand(o, w, end, bound);
        assert(exp.len() > 0);
        assert(rend =~= lead + exp + trail);
    } else {
        let off = ptr_target(b, w[pos + 1]);
        lemma_render_vs_expand(o, o.skip(off), 0, off);
        if expand_rec(o, o.skip(off), 0, off).len() == 0 {
            lemma_no_dangling_when_empty(o, o.skip(off), 0, off);
        }
        assert(rend =~= lead + exp + trail);
    }
}

/// A successful scan reads nothing at or past its returned end position in
/// the starting window, so cutting the window there leaves the scan's result
/// unchanged.  This is what lets a `Name` keep only its own encoding window.
pub proof fn lemma_scan_rec_truncate(o: Seq<u8>, w: Seq<u8>, pos: int, bound: int, end: int)
    requires
        0 <= pos,
        scan_rec(o, w, pos, bound) == Ok::<int, Error>(end),
    ensures
        pos < end <= w.len(),
        scan_rec(o, w.take(end), pos, bound) == Ok::<int, Error>(end),
    decreases bound, w.len() - pos,
{
    let b = w[pos];
    if b == 0 {
        assert(w.take(end)[pos] == w[pos]);
    } else if b < 64 {
        let mid = pos + 1 + b;
        lemma_scan_rec_truncate(o, w, mid, bound, end);
        assert(w.take(end)[pos] == w[pos]);
        assert(w.take(end).subrange(pos + 1, mid) =~= w.subrange(pos + 1, mid));
    } else {
        assert(w.take(end)[pos] == w[pos]);
        assert(w.take(end)[pos + 1] == w[pos + 1]);
    }
}

/// The single separator byte `.` is a valid UTF-8 encoding.
pub proof fn lemma_dot_valid_utf8()
    ensures
        valid_utf8(seq![46u8]),
{
    let s = seq![46u8];
    assert(s.len() == 1 && s[0] == 46u8);
    assert(46u8 & 0x7F == 46u8) by (bit_vector);
    assert(vstd::utf8::decode_first_codepoint(s) == 46u32);
    assert(vstd::utf8::valid_first_scalar(s));
    assert(vstd::utf8::pop_first_scalar(s).len() == 0);
    assert(valid_utf8(vstd::utf8::pop_first_scalar(s)));
}

/// The rendering of a valid name is valid UTF-8: every label was checked
/// during the scan, and the separators are ASCII.
pub proof fn lemma_render_valid_utf8(o: Seq<u8>, w: Seq<u8>, pos: int, bound: int)
    requires
        0 <= pos,
        scan_rec(o, w, pos, bound) is Ok,
    ensures
        valid_utf8(render_rec(o, w, pos, bound)),
    decreases bound, w.len() - pos,
{
    let b = w[pos];
    let dot: Seq<u8> = if pos == 0 {
        Seq::empty()
    } else {
        seq![46u8]
    };
    assert(valid_utf8(Seq::<u8>::empty()));
    lemma_dot_valid_utf8();
    if b == 0 {
    } else if b < 64 {
        let end = pos + 1 + b;
        lemma_render_valid_utf8(o, w, end, bound);
        vstd::utf8::valid_utf8_concat(dot, w.subrange(pos + 1, end));
        vstd::utf8::valid_utf8_concat(dot + w.subrange(pos + 1, end), render_rec(o, w, end, bound));
    } else {
        let off = ptr_target(b, w[pos + 1]);
        lemma_render_valid_utf8(o, o.skip(off), 0, off);
        vstd::utf8::valid_utf8_concat(dot, render_rec(o, o.skip(off), 0, off));
    }
}

/// Truncation law: cutting the window of a successful scan anywhere before
/// its end position always fails with the truncation error — never a panic,
/// an out-of-bounds read, or another error kind.
pub proof fn lemma_truncated_prefix(o: Seq<u8>, w: Seq<u8>, pos: int, bound: int, end: int, t: int)
    requires
        0 <= pos <= t < end,
        scan_rec(o, w, pos, bound) == Ok::<int, Error>(end),
    ensures
        scan_rec(o, w.take(t), pos, bound) == Err::<int, Error>(Error::UnexpectedEOF),
    decreases bound, w.len() - pos,
{
    lemma_scan_rec_truncate(o, w, pos, bound, end);
    if pos == t {
    } else {
        let b = w[pos];
        assert(w.take(t)[pos] == w[pos]);
        if b == 0 {
        } else if b < 64 {
            let mid = pos + 1 + b;
            if t <= mid {
                if t == mid {
                    assert(w.take(t).subrange(pos + 1, mid) =~= w.subrange(pos + 1, mid));
                }
            } else {
                lemma_scan_rec_truncate(o, w, mid, bound, end);
                lemma_truncated_prefix(o, w, mid, bound, end, t);
                assert(w.take(t).subrange(pos + 1, mid) =~= w.subrange(pos + 1, mid));
            }
        } else {
            assert(t == pos + 1);
        }
    }
}

} // verus!

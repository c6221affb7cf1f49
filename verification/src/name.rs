//! The validated name view and its derived operations.

use vstd::prelude::*;
use vstd::slice::slice_index_get;
use vstd::slice::slice_subrange;

use crate::wire::lemma_scan_rec_truncate;
use crate::wire::ptr_target;
use crate::wire::scan_rec;
use crate::wire::expand_rec;
use crate::wire::render_rec;
use crate::Error;

verus! {

/// A DNS name as stored in the original packet: a validated, borrowed view.
///
/// `labels` spans the name's own encoding inside the buffer handed to
/// [`Name::scan`] — through the terminating zero label, or through the first
/// compression pointer plus its two bytes, whichever comes first.  `original`
/// is the full packet buffer, against which pointer targets are resolved.
///
/// The scanning constructor is the only way to obtain a `Name`, so every
/// value satisfies [`Name::wf`]: each byte sequence reachable from `labels`
/// by following pointers is a well-formed chain of length-prefixed UTF-8
/// labels ending in a zero label, with strictly decreasing pointer targets.
///
/// No `==` is offered on purpose: two views of byte-identical windows can be
/// told apart by comparing [`Name::labels`] slices, while value equality of
/// differently compressed encodings needs the expanded byte sequences (the
/// contract of [`Name::bytes`] speaks of exactly that sequence).
#[derive(Clone, Copy)]
pub struct Name<'a> {
    labels: &'a [u8],
    original: &'a [u8],
}

impl<'a> Name<'a> {
    /// The bytes of this name's own encoding window.
    pub closed spec fn labels_view(&self) -> Seq<u8> {
        self.labels@
    }

    /// The bytes of the full packet buffer the view was scanned against.
    pub closed spec fn original_view(&self) -> Seq<u8> {
        self.original@
    }

    /// Validity: scanning the labels window against the packet succeeds and
    /// consumes the window exactly.
    pub open spec fn wf(&self) -> bool {
        scan_rec(
            self.original_view(),
            self.labels_view(),
            0,
            self.original_view().len() as int,
        ) == Ok::<int, Error>(self.labels_view().len() as int)
    }

    /// The fully expanded byte sequence of the name: label bytes joined by
    /// `.` separators, pointers followed.
    pub open spec fn expansion(&self) -> Seq<u8> {
        expand_rec(
            self.original_view(),
            self.labels_view(),
            0,
            self.original_view().len() as int,
        )
    }

    /// The bytes of the textual rendering of the name.
    pub open spec fn rendering(&self) -> Seq<u8> {
        render_rec(
            self.original_view(),
            self.labels_view(),
            0,
            self.original_view().len() as int,
        )
    }

    /// Scan the data to get a validated `Name`.
    ///
    /// `data` is the candidate start of a name; `original` is the buffer of
    /// the whole packet, in which compression offsets are resolved.  The
    /// result is exactly what the model's walk gives: a view over
    /// `data[..end]` when the walk succeeds with end position `end`, and the
    /// first decode error otherwise.
    pub fn scan(data: &'a [u8], original: &'a [u8]) -> (r: Result<Name<'a>, Error>)
        ensures
            ({
                let walk = scan_rec(original@, data@, 0, original@.len() as int);
                match walk {
                    Ok(end) => {
                        &&& r is Ok
                        &&& r->Ok_0.wf()
                        &&& r->Ok_0.labels_view() == data@.take(end)
                        &&& r->Ok_0.original_view() == original@
                    },
                    Err(e) => r == Err::<Name<'a>, Error>(e),
                }
            }),
    {
        let ghost o = original@;
        let ghost n = original@.len() as int;
        let mut parse_data: &[u8] = data;
        let mut pos: usize = 0;
        if parse_data.len() <= pos {
            return Err(Error::UnexpectedEOF);
        }
        let mut largest_pos: usize = original.len();
        let mut byte: u8 = *slice_index_get(parse_data, pos);
        let mut seen: bool = false;
        let mut ret_pos: usize = 0;
        while byte != 0
            invariant
                o == original@,
                n == o.len(),
                pos < parse_data@.len(),
                byte == parse_data@[pos as int],
                largest_pos <= n,
                !seen ==> parse_data@ == data@ && largest_pos as int == n && scan_rec(o, data@, 0, n)
                    == scan_rec(o, data@, pos as int, n),
                seen ==> ret_pos + 2 <= data@.len() && scan_rec(o, data@, 0, n) == (
                match scan_rec(o, parse_data@, pos as int, largest_pos as int) {
                    Ok(k) => Ok::<int, Error>(ret_pos + 2),
                    Err(e) => Err::<int, Error>(e),
                }),
            decreases largest_pos, parse_data@.len() - pos,
        {
            if byte >= 192 {
                if parse_data.len() - pos < 2 {
                    return Err(Error::UnexpectedEOF);
                }
                let b1: u8 = *slice_index_get(parse_data, pos + 1);
                let off: usize = (byte as usize - 192) * 256 + (b1 as usize);
                if off >= largest_pos {
                    return Err(Error::BadPointer);
                }
                proof {
                    assert(off as int == ptr_target(byte, b1));
                    assert(scan_rec(o, parse_data@, pos as int, largest_pos as int) == (
                    match scan_rec(o, o.skip(off as int), 0, off as int) {
                        Ok(k) => Ok::<int, Error>(pos as int + 2),
                        Err(e) => Err::<int, Error>(e),
                    }));
                }
                if !seen {
                    seen = true;
                    ret_pos = pos;
                }
                largest_pos = off;
                pos = 0;
                parse_data = slice_subrange(original, off, original.len());
            } else if byte < 64 {
                let label_len: usize = byte as usize;
                if parse_data.len() - pos - 1 < label_len {
                    return Err(Error::UnexpectedEOF);
                }
                let label: &[u8] = slice_subrange(parse_data, pos + 1, pos + 1 + label_len);
                if !crate::text::is_utf8(label) {
                    return Err(Error::LabelIsNotUtf8);
                }
                pos = pos + 1 + label_len;
                if parse_data.len() <= pos {
                    return Err(Error::UnexpectedEOF);
                }
            } else {
                return Err(Error::UnknownLabelFormat);
            }
            byte = *slice_index_get(parse_data, pos);
        }
        if seen {
            proof {
                lemma_scan_rec_truncate(o, data@, 0, n, ret_pos + 2);
            }
            let labels: &[u8] = slice_subrange(data, 0, ret_pos + 2);
            Ok(Name { labels, original })
        } else {
            proof {
                lemma_scan_rec_truncate(o, data@, 0, n, pos as int + 1);
            }
            let labels: &[u8] = slice_subrange(data, 0, pos + 1);
            Ok(Name { labels, original })
        }
    }

    /// Number of bytes the serialized name occupies in the scanned slice.
    pub fn byte_len(&self) -> (r: usize)
        ensures
            r == self.labels_view().len(),
    {
        self.labels.len()
    }

    /// The name's own encoding window: the prefix of the slice handed to
    /// [`Name::scan`] that this view spans.
    pub fn labels(&self) -> (r: &'a [u8])
        ensures
            r@ == self.labels_view(),
    {
        self.labels
    }

    /// The dotted textual representation of the name, e.g. `"zz.yy.xx"`:
    /// the returned string's UTF-8 bytes are exactly the rendering walk over
    /// the validated window.
    pub fn to_text(&self) -> (r: String)
        requires
            self.wf(),
        ensures
            vstd::utf8::encode_utf8(r@) == self.rendering(),
    {
        let ghost o = self.original@;
        let mut out: Vec<u8> = Vec::new();
        let mut win: &[u8] = self.labels;
        let mut pos: usize = 0;
        let ghost mut bound: int = self.original@.len() as int;
        loop
            invariant
                o == self.original@,
                0 <= bound <= o.len(),
                pos <= win@.len(),
                scan_rec(o, win@, pos as int, bound) is Ok,
                self.rendering() == out@ + render_rec(o, win@, pos as int, bound),
            ensures
                self.rendering() == out@,
            decreases bound, win@.len() - pos,
        {
            proof {
                vstd::slice::axiom_spec_len(win);
                assert(pos < win@.len());
            }
            let b0: u8 = *slice_index_get(win, pos);
            if b0 == 0 {
                proof {
                    assert(render_rec(o, win@, pos as int, bound) =~= Seq::<u8>::empty());
                    assert(self.rendering() =~= out@);
                }
                break;
            } else if b0 >= 192 {
                proof {
                    assert(pos as int + 2 <= win@.len());
                }
                let b1: u8 = *slice_index_get(win, pos + 1);
                let off: usize = (b0 as usize - 192) * 256 + (b1 as usize);
                proof {
                    assert(off as int == ptr_target(b0, b1));
                    assert((off as int) < bound);
                    assert(scan_rec(o, win@, pos as int, bound) == (
                    match scan_rec(o, o.skip(off as int), 0, off as int) {
                        Ok(k) => Ok::<int, Error>(pos as int + 2),
                        Err(e) => Err::<int, Error>(e),
                    }));
                }
                if pos != 0 {
                    out.push(46);
                }
                proof {
                    assert(self.rendering() =~= out@ + render_rec(o, o.skip(off as int), 0, off as int));
                }
                win = slice_subrange(self.original, off, self.original.len());
                pos = 0;
                proof {
                    bound = off as int;
                }
            } else {
                proof {
                    assert(b0 < 64);
                    assert(pos as int + 1 + b0 < win@.len());
                }
                let ll: usize = b0 as usize;
                if pos != 0 {
                    out.push(46);
                }
                let ghost mark = out@;
                let mut i: usize = 0;
                while i < ll
                    invariant
                        i <= ll,
                        pos + 1 + ll <= win@.len(),
                        win@.len() <= usize::MAX,
                        out@ == mark + win@.subrange(pos as int + 1, pos as int + 1 + i),
                    decreases ll - i,
                {
                    out.push(*slice_index_get(win, pos + 1 + i));
                    proof {
                        assert(out@ =~= mark + win@.subrange(pos as int + 1, pos as int + 1 + i + 1));
                    }
                    i = i + 1;
                }
                pos = pos + 1 + ll;
                proof {
                    assert(self.rendering() =~= out@ + render_rec(o, win@, pos as int, bound));
                }
            }
        }
        proof {
            assert(self.rendering() =~= out@);
            crate::wire::lemma_render_valid_utf8(o, self.labels@, 0, o.len() as int);
        }
        crate::text::bytes_to_string(out)
    }

    /// A fresh, lazily computed iteration over the expanded bytes of the
    /// name.  Every call starts over from the view's own window, so
    /// independent expansions of one `Name` yield the same sequence:
    /// exactly [`Name::expansion`].
    pub fn bytes(&self) -> (nb: NameBytes<'a>)
        requires
            self.wf(),
        ensures
            nb.inv(),
            nb.remaining() == self.expansion(),
    {
        let mut nb = NameBytes {
            original: self.original,
            win: self.labels,
            lpos: 0,
            lend: 0,
            pos: 0,
            bound: Ghost(self.original@.len() as int),
        };
        nb.settle();
        nb
    }
}

/// Truncation law: cutting a validated name's encoding window anywhere short
/// of its byte length makes the scan fail with the truncation error — never
/// another error kind, a panic or an out-of-bounds read.
pub proof fn lemma_truncated_name_fails(n: Name, t: int)
    requires
        n.wf(),
        0 <= t < n.labels_view().len(),
    ensures
        scan_rec(
            n.original_view(),
            n.labels_view().take(t),
            0,
            n.original_view().len() as int,
        ) == Err::<int, Error>(Error::UnexpectedEOF),
{
    crate::wire::lemma_truncated_prefix(
        n.original_view(),
        n.labels_view(),
        0,
        n.original_view().len() as int,
        n.labels_view().len() as int,
        t,
    );
}

/// Rendering law: a validated name's textual rendering is its expanded byte
/// sequence — so the two have one length — except that the rendering carries
/// one trailing separator when a pointer taken after a label leads to a chain
/// that expands to nothing ([`crate::wire::dangling_dot`]).
pub proof fn lemma_rendering_vs_expansion(n: Name)
    requires
        n.wf(),
    ensures
        n.rendering() == n.expansion() + (if crate::wire::dangling_dot(
            n.original_view(),
            n.labels_view(),
            0,
            n.original_view().len() as int,
        ) {
            seq![46u8]
        } else {
            Seq::<u8>::empty()
        }),
        !crate::wire::dangling_dot(
            n.original_view(),
            n.labels_view(),
            0,
            n.original_view().len() as int,
        ) ==> n.rendering() == n.expansion(),
{
    crate::wire::lemma_render_vs_expand(
        n.original_view(),
        n.labels_view(),
        0,
        n.original_view().len() as int,
    );
    assert(n.rendering() =~= n.expansion() + (if crate::wire::dangling_dot(
        n.original_view(),
        n.labels_view(),
        0,
        n.original_view().len() as int,
    ) {
        seq![46u8]
    } else {
        Seq::<u8>::empty()
    }));
    if !crate::wire::dangling_dot(
        n.original_view(),
        n.labels_view(),
        0,
        n.original_view().len() as int,
    ) {
        assert(n.rendering() =~= n.expansion());
    }
}

/// The in-progress state of one lazy expansion of a [`Name`].
///
/// `win` is the window currently being walked (the name's own window, or a
/// suffix of the packet after a pointer was taken); `win[lpos..lend]` are the
/// bytes of the current label still to be yielded, and `pos` is where the
/// walk continues after them.  `bound` is the strict-decrease bound for the
/// pointers still ahead, which keeps the walk finite.
#[derive(Clone)]
pub struct NameBytes<'a> {
    original: &'a [u8],
    win: &'a [u8],
    lpos: usize,
    lend: usize,
    pos: usize,
    bound: Ghost<int>,
}

impl<'a> NameBytes<'a> {
    /// The expander's internal consistency: the pending label is in bounds
    /// and the rest of the walk is a valid name chain.
    pub closed spec fn inv(&self) -> bool {
        &&& self.lpos <= self.lend <= self.pos <= self.win@.len()
        &&& 0 <= self.bound@ <= self.original@.len()
        &&& scan_rec(self.original@, self.win@, self.pos as int, self.bound@) is Ok
    }

    /// The bytes this expansion will still yield: the pending label bytes,
    /// then — if anything follows — a `.` separator and the expansion of the
    /// rest of the chain.
    pub closed spec fn remaining(&self) -> Seq<u8> {
        let rest = expand_rec(self.original@, self.win@, self.pos as int, self.bound@);
        self.win@.subrange(self.lpos as int, self.lend as int) + (if rest.len() == 0 {
            rest
        } else {
            seq![46u8] + rest
        })
    }

    /// Move the walk, with no pending label bytes, to the next label: follow
    /// any chain of pointers, then take the label there (or stop on the zero
    /// label), so that afterwards the bytes still to yield are exactly the
    /// expansion of the walk's old position.
    fn settle(&mut self)
        requires
            old(self).inv(),
            old(self).lpos == old(self).lend,
        ensures
            final(self).inv(),
            final(self).original == old(self).original,
            final(self).remaining() == expand_rec(
                old(self).original@,
                old(self).win@,
                old(self).pos as int,
                old(self).bound@,
            ),
            (final(self).lpos == final(self).lend) <==> (final(self).remaining().len() == 0),
    {
        let ghost target = expand_rec(
            old(self).original@,
            old(self).win@,
            old(self).pos as int,
            old(self).bound@,
        );
        self.lpos = 0;
        self.lend = 0;
        proof {
            vstd::slice::axiom_spec_len(self.win);
            assert(self.pos < self.win@.len());
        }
        let mut b0: u8 = *slice_index_get(self.win, self.pos);
        while b0 >= 192
            invariant
                self.inv(),
                self.lpos == 0 && self.lend == 0,
                self.pos < self.win@.len(),
                b0 == self.win@[self.pos as int],
                self.original == old(self).original,
                expand_rec(self.original@, self.win@, self.pos as int, self.bound@) == target,
            decreases self.bound@,
        {
            proof {
                vstd::slice::axiom_spec_len(self.win);
                assert(self.pos as int + 2 <= self.win@.len());
            }
            let b1: u8 = *slice_index_get(self.win, self.pos + 1);
            let off: usize = (b0 as usize - 192) * 256 + (b1 as usize);
            proof {
                assert(off as int == ptr_target(b0, b1));
                assert((off as int) < self.bound@);
                assert(scan_rec(self.original@, self.win@, self.pos as int, self.bound@) == (
                match scan_rec(self.original@, self.original@.skip(off as int), 0, off as int) {
                    Ok(k) => Ok::<int, Error>(self.pos as int + 2),
                    Err(e) => Err::<int, Error>(e),
                }));
                assert(expand_rec(self.original@, self.win@, self.pos as int, self.bound@)
                    == expand_rec(self.original@, self.original@.skip(off as int), 0, off as int));
            }
            self.win = slice_subrange(self.original, off, self.original.len());
            self.pos = 0;
            self.bound = Ghost(off as int);
            proof {
                vstd::slice::axiom_spec_len(self.win);
                assert(self.win@ == self.original@.skip(off as int));
                assert(self.pos < self.win@.len());
            }
            b0 = *slice_index_get(self.win, 0);
        }
        if b0 == 0 {
            self.lpos = self.pos;
            self.lend = self.pos;
            proof {
                assert(self.remaining() =~= target);
            }
        } else {
            proof {
                assert(b0 < 64);
            }
            let ll: usize = b0 as usize;
            proof {
                vstd::slice::axiom_spec_len(self.win);
                assert(self.pos as int + 1 + ll < self.win@.len());
            }
            self.lpos = self.pos + 1;
            self.lend = self.pos + 1 + ll;
            self.pos = self.pos + 1 + ll;
            proof {
                assert(self.remaining() =~= target);
            }
        }
    }

    /// Yield the next byte of the expansion, or `None` once — and forever
    /// after — the expansion is exhausted.
    pub fn next(&mut self) -> (r: Option<u8>)
        requires
            old(self).inv(),
        ensures
            final(self).inv(),
            match r {
                Some(b) => old(self).remaining().len() > 0 && b == old(self).remaining()[0]
                    && final(self).remaining() == old(self).remaining().skip(1),
                None => old(self).remaining().len() == 0 && final(self).remaining().len() == 0,
            },
    {
        if self.lpos < self.lend {
            let b: u8 = *slice_index_get(self.win, self.lpos);
            self.lpos = self.lpos + 1;
            proof {
                assert(self.remaining() =~= old(self).remaining().skip(1));
            }
            Some(b)
        } else {
            proof {
                assert(self.pos < self.win@.len());
            }
            let b0: u8 = *slice_index_get(self.win, self.pos);
            if b0 == 0 {
                proof {
                    assert(old(self).remaining().len() == 0);
                }
                None
            } else {
                self.settle();
                if self.lpos < self.lend {
                    proof {
                        assert(self.remaining() =~= old(self).remaining().skip(1));
                    }
                    Some(46)
                } else {
                    None
                }
            }
        }
    }
}

} // verus!

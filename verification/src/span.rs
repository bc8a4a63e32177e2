//! Partition of a row's text into printable and non-printable runs.

use crate::text::ascii_row;
use crate::text::ascii_text;
use crate::text::hex_len;
use crate::text::hex_row;
use crate::text::hex_text;
use crate::text::is_printable;
use crate::text::printable;
use vstd::prelude::*;

verus! {

/// Which class of bytes a run of text stands for.
#[derive(Clone, Copy, Debug, PartialEq, Eq, Structural)]
pub enum SpanType {
    Printable,
    NonPrintable,
}

/// A half-open range of offsets into one row's text, all of one kind.
#[derive(Clone, Copy, Debug, PartialEq, Eq, Structural)]
pub struct LineSpan {
    pub ty: SpanType,
    pub start: usize,
    pub end: usize,
}

/// Which of a row's two texts a span list is for.
#[derive(Clone, Copy, Debug, PartialEq, Eq, Structural)]
pub enum TextKind {
    /// Hex pairs: three characters a byte, but two for the last.
    Hex,
    /// The ASCII mirror: one character a byte.
    Ascii,
}

/// The kind a byte is drawn as. Without highlighting every byte counts as
/// printable.
pub open spec fn kind_of(b: u8, highlight: bool) -> SpanType {
    if highlight && !is_printable(b) {
        SpanType::NonPrintable
    } else {
        SpanType::Printable
    }
}

/// The kinds of the bytes of a row, one for each byte.
pub open spec fn kinds_of(bytes: Seq<u8>, highlight: bool) -> Seq<SpanType> {
    Seq::new(bytes.len(), |k: int| kind_of(bytes[k], highlight))
}

/// The offset in the row's text at which the characters of byte `k` start.
pub open spec fn cell_start(tk: TextKind, k: int) -> int {
    match tk {
        TextKind::Hex => 3 * k,
        TextKind::Ascii => k,
    }
}

/// The length of the text of a row of `n` bytes.
pub open spec fn text_len(tk: TextKind, n: int) -> int {
    match tk {
        TextKind::Hex => hex_len(n),
        TextKind::Ascii => if n <= 0 {
            0
        } else {
            n
        },
    }
}

/// The offset at which the characters of byte `k` of `n` end: where the
/// next byte starts, or the end of the text after the last byte. In hex
/// text the space after a byte belongs to that byte's cell.
pub open spec fn cell_end(tk: TextKind, k: int, n: int) -> int {
    if k + 1 >= n {
        text_len(tk, n)
    } else {
        cell_start(tk, k + 1)
    }
}

/// The cell of byte `k` in a row of kinds, as a span of that byte's kind.
pub open spec fn cell(kinds: Seq<SpanType>, tk: TextKind, k: int) -> LineSpan {
    LineSpan {
        ty: kinds[k],
        start: cell_start(tk, k) as usize,
        end: cell_end(tk, k, kinds.len() as int) as usize,
    }
}

/// One span for each byte of the row, in order.
pub open spec fn cells(kinds: Seq<SpanType>, tk: TextKind) -> Seq<LineSpan> {
    Seq::new(kinds.len(), |k: int| cell(kinds, tk, k))
}

/// A span list with every run of neighbours of one kind joined into one
/// span, which starts where the run's first span starts and ends where its
/// last span ends.
pub open spec fn merged(spans: Seq<LineSpan>) -> Seq<LineSpan>
    decreases spans.len(),
{
    if spans.len() == 0 {
        spans
    } else if spans.len() == 1 {
        spans
    } else {
        let front = merged(spans.drop_last());
        let open = front.last();
        let next = spans.last();
        if next.ty == open.ty {
            front.drop_last().push(LineSpan { ty: open.ty, start: open.start, end: next.end })
        } else {
            front.push(next)
        }
    }
}

/// The spans of a row of kinds: its cells with neighbours of one kind
/// joined. An empty row has one empty printable span.
pub open spec fn row_spans(kinds: Seq<SpanType>, tk: TextKind) -> Seq<LineSpan> {
    if kinds.len() == 0 {
        seq![LineSpan { ty: SpanType::Printable, start: 0, end: 0 }]
    } else {
        merged(cells(kinds, tk))
    }
}

/// Each span ends where the next one starts.
pub open spec fn contiguous(spans: Seq<LineSpan>) -> bool {
    forall|i: int|
        #![trigger spans[i], spans[i + 1]]
        0 <= i < spans.len() - 1 ==> spans[i].end == spans[i + 1].start
}

/// No span has its end before its start.
pub open spec fn ordered(spans: Seq<LineSpan>) -> bool {
    forall|i: int| 0 <= i < spans.len() ==> (#[trigger] spans[i]).start <= spans[i].end
}

/// No two neighbours are of one kind.
pub open spec fn alternating(spans: Seq<LineSpan>) -> bool {
    forall|i: int|
        #![trigger spans[i], spans[i + 1]]
        0 <= i < spans.len() - 1 ==> spans[i].ty != spans[i + 1].ty
}

/// The spans cover `[0, len)` exactly: the first starts at 0, each ends
/// where the next starts, and the last ends at `len`.
pub open spec fn partitions(spans: Seq<LineSpan>, len: int) -> bool {
    &&& spans.len() > 0
    &&& spans[0].start == 0
    &&& spans.last().end == len
    &&& contiguous(spans)
    &&& ordered(spans)
}

/// The slices of `text` that the first `upto` spans name, one after the other.
pub open spec fn slices_concat(text: Seq<char>, spans: Seq<LineSpan>, upto: int) -> Seq<char>
    decreases upto,
{
    if upto <= 0 {
        Seq::empty()
    } else {
        slices_concat(text, spans, upto - 1) + text.subrange(
            spans[upto - 1].start as int,
            spans[upto - 1].end as int,
        )
    }
}

/// Decides whether two neighbouring spans are of one kind, and if so,
/// extends the earlier one, `b`, to the end of the later one, `a`.
pub fn span_dedup(a: &mut LineSpan, b: &mut LineSpan) -> (same: bool)
    ensures
        same == (old(a).ty == old(b).ty),
        *final(a) == *old(a),
        same ==> *final(b) == (LineSpan { ty: old(b).ty, start: old(b).start, end: old(a).end }),
        !same ==> *final(b) == *old(b),
{
    if a.ty == b.ty {
        b.end = a.end;
        true
    } else {
        false
    }
}

/// Joins neighbouring spans of one kind.
pub fn merge_spans(spans: &Vec<LineSpan>) -> (out: Vec<LineSpan>)
    ensures
        out@ == merged(spans@),
{
    let mut out: Vec<LineSpan> = Vec::new();
    let n = spans.len();
    let mut i: usize = 0;
    while i < n
        invariant
            n == spans@.len(),
            i <= n,
            out@ == merged(spans@.take(i as int)),
            i > 0 ==> out@.len() > 0,
        decreases n - i,
    {
        let mut next = spans[i];
        proof {
            let pre = spans@.take(i as int + 1);
            assert(pre.drop_last() =~= spans@.take(i as int));
            assert(pre.last() == spans@[i as int]);
        }
        if i == 0 {
            out.push(next);
            assert(out@ =~= spans@.take(1));
        } else {
            let last_index = out.len() - 1;
            let mut open = out[last_index];
            let ghost front = out@;
            if span_dedup(&mut next, &mut open) {
                out.set(last_index, open);
                assert(out@ =~= front.drop_last().push(open));
            } else {
                out.push(next);
            }
        }
        i = i + 1;
    }
    assert(spans@.take(n as int) =~= spans@);
    out
}

/// The text of one row in both forms, each with its spans.
pub struct RowText {
    /// The hex pairs of the row.
    pub hex: String,
    /// The spans of the hex text.
    pub hex_spans: Vec<LineSpan>,
    /// The ASCII mirror of the row.
    pub ascii: String,
    /// The spans of the ASCII mirror.
    pub ascii_spans: Vec<LineSpan>,
}

/// The kind a byte is drawn as.
pub fn span_type(b: u8, highlight: bool) -> (ty: SpanType)
    ensures
        ty == kind_of(b, highlight),
{
    if highlight && !printable(b) {
        SpanType::NonPrintable
    } else {
        SpanType::Printable
    }
}

/// Partitions the text of a row into runs of one kind. With `highlight`
/// off, the whole text is one printable span.
pub fn segment(bytes: &[u8], highlight: bool, tk: TextKind) -> (out: Vec<LineSpan>)
    requires
        text_len(tk, bytes@.len() as int) <= usize::MAX,
    ensures
        out@ == row_spans(kinds_of(bytes@, highlight), tk),
{
    let n = bytes.len();
    if n == 0 {
        let mut out: Vec<LineSpan> = Vec::new();
        out.push(LineSpan { ty: SpanType::Printable, start: 0, end: 0 });
        assert(out@ =~= row_spans(kinds_of(bytes@, highlight), tk));
        return out;
    }
    let ghost kinds = kinds_of(bytes@, highlight);
    let stride: usize = match tk {
        TextKind::Hex => 3,
        TextKind::Ascii => 1,
    };
    let total: usize = match tk {
        TextKind::Hex => 3 * n - 1,
        TextKind::Ascii => n,
    };
    let mut raw: Vec<LineSpan> = Vec::new();
    let mut k: usize = 0;
    while k < n
        invariant
            n == bytes@.len(),
            n > 0,
            k <= n,
            kinds == kinds_of(bytes@, highlight),
            text_len(tk, n as int) <= usize::MAX,
            total == text_len(tk, n as int),
            stride == cell_start(tk, 1),
            raw@.len() == k,
            forall|j: int| 0 <= j < k ==> raw@[j] == cell(kinds, tk, j),
        decreases n - k,
    {
        let start = stride * k;
        let end = if k + 1 >= n {
            total
        } else {
            stride * (k + 1)
        };
        raw.push(LineSpan { ty: span_type(bytes[k], highlight), start, end });
        k = k + 1;
    }
    assert(raw@ =~= cells(kinds, tk));
    merge_spans(&raw)
}

/// Formats a row of bytes and partitions both of its texts.
pub fn segment_row(bytes: &[u8], highlight: bool) -> (row: RowText)
    requires
        hex_len(bytes@.len() as int) <= usize::MAX,
    ensures
        row.hex@ == hex_text(bytes@),
        row.ascii@ == ascii_text(bytes@),
        row.hex_spans@ == row_spans(kinds_of(bytes@, highlight), TextKind::Hex),
        row.ascii_spans@ == row_spans(kinds_of(bytes@, highlight), TextKind::Ascii),
{
    RowText {
        hex: hex_row(bytes),
        hex_spans: segment(bytes, highlight, TextKind::Hex),
        ascii: ascii_row(bytes),
        ascii_spans: segment(bytes, highlight, TextKind::Ascii),
    }
}

/// Joining neighbours of one kind keeps where a contiguous span list starts
/// and ends, keeps it contiguous and ordered, and leaves no two neighbours
/// of one kind.
pub proof fn lemma_merged_partition(spans: Seq<LineSpan>)
    requires
        spans.len() > 0,
        contiguous(spans),
        ordered(spans),
    ensures
        merged(spans).len() > 0,
        merged(spans).len() <= spans.len(),
        merged(spans)[0].start == spans[0].start,
        merged(spans).last().end == spans.last().end,
        merged(spans).last().ty == spans.last().ty,
        contiguous(merged(spans)),
        ordered(merged(spans)),
        alternating(merged(spans)),
    decreases spans.len(),
{
    if spans.len() > 1 {
        let head = spans.drop_last();
        assert(contiguous(head)) by {
            assert forall|i: int|
                #![trigger head[i], head[i + 1]]
                0 <= i < head.len() - 1 implies head[i].end == head[i + 1].start by {
                assert(spans[i].end == spans[i + 1].start);
            }
        }
        assert(ordered(head)) by {
            assert forall|i: int| 0 <= i < head.len() implies (#[trigger] head[i]).start
                <= head[i].end by {
                assert(spans[i].start <= spans[i].end);
            }
        }
        lemma_merged_partition(head);
        let front = merged(head);
        let open = front.last();
        let next = spans.last();
        let at = spans.len() - 2;
        assert(spans[at].end == spans[at + 1].start);
        assert(head.last() == spans[at]);
        assert(next.start <= next.end);
        assert(open.start <= open.end);
        let m = merged(spans);
        if next.ty == open.ty {
            let joined = LineSpan { ty: open.ty, start: open.start, end: next.end };
            assert(m == front.drop_last().push(joined));
            assert forall|i: int|
                #![trigger m[i], m[i + 1]]
                0 <= i < m.len() - 1 implies m[i].end == m[i + 1].start && m[i].ty != m[i
                + 1].ty by {
                assert(front[i].end == front[i + 1].start);
                assert(front[i].ty != front[i + 1].ty);
            }
            assert forall|i: int| 0 <= i < m.len() implies (#[trigger] m[i]).start
                <= m[i].end by {
                if i < m.len() - 1 {
                    assert(front[i].start <= front[i].end);
                }
            }
        } else {
            assert(m == front.push(next));
            assert forall|i: int|
                #![trigger m[i], m[i + 1]]
                0 <= i < m.len() - 1 implies m[i].end == m[i + 1].start && m[i].ty != m[i
                + 1].ty by {
                if i < front.len() - 1 {
                    assert(front[i].end == front[i + 1].start);
                    assert(front[i].ty != front[i + 1].ty);
                }
            }
            assert forall|i: int| 0 <= i < m.len() implies (#[trigger] m[i]).start
                <= m[i].end by {
                if i < front.len() {
                    assert(front[i].start <= front[i].end);
                }
            }
        }
    }
}

/// The cells of a row that fits in memory cover its text in order.
pub proof fn lemma_cells_partition(kinds: Seq<SpanType>, tk: TextKind)
    requires
        kinds.len() > 0,
        text_len(tk, kinds.len() as int) <= usize::MAX,
    ensures
        partitions(cells(kinds, tk), text_len(tk, kinds.len() as int)),
{
    let c = cells(kinds, tk);
    let n = kinds.len() as int;
    assert forall|i: int|
        #![trigger c[i], c[i + 1]]
        0 <= i < c.len() - 1 implies c[i].end == c[i + 1].start by {
        assert(c[i + 1] == cell(kinds, tk, i + 1));
    }
    assert forall|i: int| 0 <= i < c.len() implies (#[trigger] c[i]).start <= c[i].end by {}
}

/// The spans of a row cover the row's text exactly and in order, and no two
/// neighbours among them are of one kind.
pub proof fn lemma_row_spans_partition(kinds: Seq<SpanType>, tk: TextKind)
    requires
        text_len(tk, kinds.len() as int) <= usize::MAX,
    ensures
        partitions(row_spans(kinds, tk), text_len(tk, kinds.len() as int)),
        alternating(row_spans(kinds, tk)),
        row_spans(kinds, tk).len() <= kinds.len() || kinds.len() == 0,
{
    if kinds.len() > 0 {
        lemma_cells_partition(kinds, tk);
        lemma_merged_partition(cells(kinds, tk));
    }
}

/// The slices of a text that a partition of it names, joined in order, are
/// the text up to the end of the last slice taken.
pub proof fn lemma_slices_concat_prefix(text: Seq<char>, spans: Seq<LineSpan>, upto: int)
    requires
        partitions(spans, text.len() as int),
        0 <= upto <= spans.len(),
    ensures
        slices_concat(text, spans, upto) == text.subrange(
            0,
            if upto == 0 {
                0
            } else {
                spans[upto - 1].end as int
            },
        ),
        upto > 0 ==> 0 <= spans[upto - 1].start <= spans[upto - 1].end <= text.len(),
    decreases upto,
{
    if upto == 0 {
        assert(slices_concat(text, spans, upto) =~= text.subrange(0, 0));
    } else {
        lemma_slices_concat_prefix(text, spans, upto - 1);
        lemma_span_bounds(spans, text.len() as int, upto - 1);
        if upto > 1 {
            assert(spans[upto - 2].end == spans[upto - 2 + 1].start);
        }
        assert(spans[upto - 1].start <= spans[upto - 1].end);
        assert(slices_concat(text, spans, upto) =~= text.subrange(0, spans[upto - 1].end as int));
    }
}

/// Every span of a partition of `[0, len)` lies inside it.
pub proof fn lemma_span_bounds(spans: Seq<LineSpan>, len: int, i: int)
    requires
        partitions(spans, len),
        0 <= i < spans.len(),
    ensures
        0 <= spans[i].start <= spans[i].end <= len,
    decreases spans.len() - i,
{
    assert(spans[i].start <= spans[i].end);
    if i < spans.len() - 1 {
        lemma_span_bounds(spans, len, i + 1);
        assert(spans[i].end == spans[i + 1].start);
        assert(spans[i + 1].start <= spans[i + 1].end);
    }
}

/// Joined in order, the slices of a row's text that its spans name give the
/// text back: the hex text from the hex spans, and the ASCII mirror from its
/// own.
pub proof fn lemma_spans_round_trip(bytes: Seq<u8>, highlight: bool)
    requires
        hex_len(bytes.len() as int) <= usize::MAX,
    ensures
        ({
            let spans = row_spans(kinds_of(bytes, highlight), TextKind::Hex);
            slices_concat(hex_text(bytes), spans, spans.len() as int) == hex_text(bytes)
        }),
        ({
            let spans = row_spans(kinds_of(bytes, highlight), TextKind::Ascii);
            slices_concat(ascii_text(bytes), spans, spans.len() as int) == ascii_text(bytes)
        }),
{
    let kinds = kinds_of(bytes, highlight);
    let hex = row_spans(kinds, TextKind::Hex);
    let ascii = row_spans(kinds, TextKind::Ascii);
    lemma_row_spans_partition(kinds, TextKind::Hex);
    lemma_row_spans_partition(kinds, TextKind::Ascii);
    lemma_slices_concat_prefix(hex_text(bytes), hex, hex.len() as int);
    lemma_slices_concat_prefix(ascii_text(bytes), ascii, ascii.len() as int);
    assert(hex_text(bytes).subrange(0, hex_text(bytes).len() as int) =~= hex_text(bytes));
    assert(ascii_text(bytes).subrange(0, ascii_text(bytes).len() as int) =~= ascii_text(bytes));
}

/// No two neighbouring spans of a row are of one kind.
pub proof fn lemma_spans_alternate(bytes: Seq<u8>, highlight: bool, tk: TextKind)
    requires
        text_len(tk, bytes.len() as int) <= usize::MAX,
    ensures
        alternating(row_spans(kinds_of(bytes, highlight), tk)),
{
    lemma_row_spans_partition(kinds_of(bytes, highlight), tk);
}

/// Whether `outer` is of the kind of `inner` and takes in its whole range.
pub open spec fn holds(outer: LineSpan, inner: LineSpan) -> bool {
    outer.ty == inner.ty && outer.start <= inner.start && inner.end <= outer.end
}

/// After neighbours of one kind are joined, every span of the list lies in
/// a span of its own kind.
pub proof fn lemma_merged_holds(spans: Seq<LineSpan>, j: int)
    requires
        contiguous(spans),
        ordered(spans),
        0 <= j < spans.len(),
    ensures
        exists|i: int| 0 <= i < merged(spans).len() && holds(#[trigger] merged(spans)[i], spans[j]),
    decreases spans.len(),
{
    let m = merged(spans);
    if spans.len() == 1 {
        assert(holds(m[0], spans[j]));
    } else {
        let head = spans.drop_last();
        assert(contiguous(head)) by {
            assert forall|i: int|
                #![trigger head[i], head[i + 1]]
                0 <= i < head.len() - 1 implies head[i].end == head[i + 1].start by {
                assert(spans[i].end == spans[i + 1].start);
            }
        }
        assert(ordered(head)) by {
            assert forall|i: int| 0 <= i < head.len() implies (#[trigger] head[i]).start
                <= head[i].end by {
                assert(spans[i].start <= spans[i].end);
            }
        }
        lemma_merged_partition(head);
        let front = merged(head);
        let open = front.last();
        let next = spans.last();
        let at = spans.len() - 2;
        assert(spans[at].end == spans[at + 1].start);
        assert(head.last() == spans[at]);
        assert(next.start <= next.end);
        assert(open.start <= open.end);
        if j == spans.len() - 1 {
            assert(holds(m.last(), spans[j]));
        } else {
            lemma_merged_holds(head, j);
            let i = choose|i: int| 0 <= i < front.len() && holds(#[trigger] front[i], head[j]);
            if next.ty == open.ty && i == front.len() - 1 {
                assert(holds(m[i], spans[j]));
            } else {
                assert(m[i] == front[i]);
                assert(holds(m[i], spans[j]));
            }
        }
    }
}

/// Every byte of a row lies in a span of its own kind: the span takes in
/// all the characters that stand for the byte.
pub proof fn lemma_spans_classify(bytes: Seq<u8>, highlight: bool, tk: TextKind, k: int)
    requires
        text_len(tk, bytes.len() as int) <= usize::MAX,
        0 <= k < bytes.len(),
    ensures
        ({
            let spans = row_spans(kinds_of(bytes, highlight), tk);
            exists|i: int|
                0 <= i < spans.len() && holds(
                    #[trigger] spans[i],
                    cell(kinds_of(bytes, highlight), tk, k),
                )
        }),
        cell(kinds_of(bytes, highlight), tk, k).ty == kind_of(bytes[k], highlight),
{
    let kinds = kinds_of(bytes, highlight);
    let c = cells(kinds, tk);
    lemma_cells_partition(kinds, tk);
    lemma_merged_holds(c, k);
    let i = choose|i: int| 0 <= i < merged(c).len() && holds(#[trigger] merged(c)[i], c[k]);
    assert(c[k] == cell(kinds, tk, k));
    assert(row_spans(kinds, tk) == merged(c));
    assert(holds(row_spans(kinds, tk)[i], cell(kinds, tk, k)));
}

/// A contiguous list of spans of one kind is joined into a single span.
pub proof fn lemma_merged_uniform(spans: Seq<LineSpan>, ty: SpanType)
    requires
        spans.len() > 0,
        forall|j: int| 0 <= j < spans.len() ==> (#[trigger] spans[j]).ty == ty,
    ensures
        merged(spans) == seq![LineSpan { ty, start: spans[0].start, end: spans.last().end }],
    decreases spans.len(),
{
    if spans.len() == 1 {
        assert(merged(spans) =~= seq![
            LineSpan { ty, start: spans[0].start, end: spans.last().end },
        ]);
    } else {
        let head = spans.drop_last();
        assert forall|j: int| 0 <= j < head.len() implies (#[trigger] head[j]).ty == ty by {
            assert(spans[j].ty == ty);
        }
        lemma_merged_uniform(head, ty);
        assert(spans.last().ty == ty);
        assert(merged(spans) =~= seq![
            LineSpan { ty, start: spans[0].start, end: spans.last().end },
        ]);
    }
}

/// Without highlighting, the whole text of a row is one printable span,
/// whatever its bytes are.
pub proof fn lemma_plain_row_single_span(bytes: Seq<u8>, tk: TextKind)
    requires
        text_len(tk, bytes.len() as int) <= usize::MAX,
    ensures
        row_spans(kinds_of(bytes, false), tk) == seq![
            LineSpan {
                ty: SpanType::Printable,
                start: 0,
                end: text_len(tk, bytes.len() as int) as usize,
            },
        ],
{
    let kinds = kinds_of(bytes, false);
    if bytes.len() > 0 {
        lemma_merged_uniform(cells(kinds, tk), SpanType::Printable);
    }
}

} // verus!

//! What holds of every token stream.

use vstd::prelude::*;
use crate::bytes::{is_digit, is_word_start, lemma_run_end, run_end, Class, LINE_FEED};
use crate::comment::comment_opens;
use crate::lexeme::lexeme_at;
use crate::lexer::{
    cursor_wf, lemma_same_line, lemma_step, pulled, start_cursor, step, Cursor, Unit,
};
use crate::position::{column_at, lemma_position_monotonic, line_at, line_start};
use crate::punct::{holds_at, lemma_maximal_munch, lemma_text_len, lemma_text_round_trip, punct_at};
use crate::stream::{is_end, lex, lex_from, views, Lexeme, LexemeView};
use crate::token::{ErrorKind, Kind, KindView};

verus! {

/// The text under the spans of `items`, one span after the other.
pub open spec fn spans_text(src: Seq<u8>, items: Seq<LexemeView>) -> Seq<u8>
    decreases items.len(),
{
    if items.len() == 0 {
        Seq::empty()
    } else {
        src.subrange(items[0].start, items[0].end) + spans_text(
            src,
            items.subrange(1, items.len() as int),
        )
    }
}

/// Where a lexer stands after `pulls` pulls from `cur`.
pub open spec fn cursor_from(src: Seq<u8>, cur: Cursor, pulls: nat) -> Cursor
    decreases pulls,
{
    if pulls == 0 {
        cur
    } else {
        cursor_from(src, step(src, cur).next, (pulls - 1) as nat)
    }
}

/// Whether the place of `a` is not behind the place of `b`.
pub open spec fn not_behind(a: Unit, b: Unit) -> bool {
    a.line < b.line || (a.line == b.line && a.column <= b.column)
}

/// The shape of a stream from a cursor on: it is not empty, its spans
/// start at the cursor, follow each other without gap or overlap and end
/// at the end of the buffer, and `Eof` is its last item and no other.
pub proof fn lemma_stream_shape(src: Seq<u8>, cur: Cursor)
    requires
        cursor_wf(src, cur),
    ensures
        lex_from(src, cur).len() >= 1,
        lex_from(src, cur)[0].start == cur.pos,
        lex_from(src, cur)[0].unit == pulled(src, cur),
        lex_from(src, cur).last().end == src.len(),
        forall|i: int|
            0 <= i < lex_from(src, cur).len() ==> cur.pos <= (#[trigger] lex_from(src, cur)[i]).start
                <= lex_from(src, cur)[i].end <= src.len(),
        forall|i: int|
            0 <= i < lex_from(src, cur).len() - 1 ==> (#[trigger] lex_from(src, cur)[i]).end
                == lex_from(src, cur)[i + 1].start,
        forall|i: int|
            0 <= i < lex_from(src, cur).len() ==> (is_end((#[trigger] lex_from(src, cur)[i]).unit.what)
                <==> i == lex_from(src, cur).len() - 1),
    decreases src.len() - cur.pos,
{
    let pull = step(src, cur);
    let items = lex_from(src, cur);
    lemma_step(src, cur);
    lemma_run_end(src, cur.pos, Class::Blank);
    if !is_end(pull.what) {
        let rest = lex_from(src, pull.next);
        lemma_stream_shape(src, pull.next);
        assert forall|i: int| 1 <= i < items.len() implies #[trigger] items[i] == rest[i - 1] by {}
        assert forall|i: int| 0 <= i < items.len() - 1 implies (#[trigger] items[i]).end == items[i
            + 1].start by {
            if i >= 1 {
                assert(items[i] == rest[i - 1]);
                assert(items[i + 1] == rest[i]);
            } else {
                assert(items[1] == rest[0]);
            }
        }
        assert forall|i: int| 0 <= i < items.len() implies (is_end((#[trigger] items[i]).unit.what)
            <==> i == items.len() - 1) by {
            if i >= 1 {
                assert(items[i] == rest[i - 1]);
            }
        }
        assert forall|i: int| 0 <= i < items.len() implies cur.pos <= (#[trigger] items[i]).start
            <= items[i].end <= src.len() by {
            if i >= 1 {
                assert(items[i] == rest[i - 1]);
            }
        }
    }
}

/// Span coverage from a cursor on: the spans of the stream, one after the
/// other, are the buffer from the cursor to its end.
pub proof fn lemma_spans_from(src: Seq<u8>, cur: Cursor)
    requires
        cursor_wf(src, cur),
    ensures
        spans_text(src, lex_from(src, cur)) == src.subrange(cur.pos, src.len() as int),
    decreases src.len() - cur.pos,
{
    let pull = step(src, cur);
    let items = lex_from(src, cur);
    lemma_step(src, cur);
    lemma_run_end(src, cur.pos, Class::Blank);
    if is_end(pull.what) {
        assert(items.subrange(1, items.len() as int) =~= Seq::empty());
        assert(spans_text(src, Seq::<LexemeView>::empty()) =~= Seq::<u8>::empty());
        assert(items[0].end == src.len());
        assert(spans_text(src, items) =~= src.subrange(cur.pos, src.len() as int));
    } else {
        let rest = lex_from(src, pull.next);
        lemma_spans_from(src, pull.next);
        assert(items.subrange(1, items.len() as int) =~= rest);
        assert(src.subrange(cur.pos, pull.next.pos) + src.subrange(pull.next.pos, src.len() as int)
            =~= src.subrange(cur.pos, src.len() as int));
    }
}

/// Span coverage: the spans of the token stream of a buffer, one after the
/// other in the order of the stream, are the buffer. The first span starts
/// at offset 0, each starts where the one before it ends, and the last ends
/// at the end of the buffer; comments, blanks and faulty text are all under
/// some span.
pub proof fn lemma_span_coverage(src: Seq<u8>)
    requires
        src.len() <= usize::MAX,
    ensures
        spans_text(src, lex(src)) == src,
        lex(src).len() >= 1,
        lex(src)[0].start == 0,
        lex(src).last().end == src.len(),
        forall|i: int| 0 <= i < lex(src).len() - 1 ==> (#[trigger] lex(src)[i]).end == lex(src)[i + 1].start,
{
    lemma_stream_shape(src, start_cursor());
    lemma_spans_from(src, start_cursor());
    assert(src.subrange(0, src.len() as int) =~= src);
}

/// A token stream is ended by exactly one `Eof`: its last item is `Eof`,
/// and none before it is.
pub proof fn lemma_single_eof(src: Seq<u8>)
    requires
        src.len() <= usize::MAX,
    ensures
        forall|i: int|
            0 <= i < lex(src).len() ==> (is_end((#[trigger] lex(src)[i]).unit.what) <==> i == lex(
                src,
            ).len() - 1),
{
    lemma_stream_shape(src, start_cursor());
}

/// Determinism: two readings of one buffer are the same stream.
pub proof fn lemma_deterministic(src: Seq<u8>, first: Seq<Lexeme>, second: Seq<Lexeme>)
    requires
        views(first) == lex(src),
        views(second) == lex(src),
    ensures
        views(first) == views(second),
        first.len() == second.len(),
        forall|i: int| 0 <= i < first.len() ==> (#[trigger] first[i])@ == second[i]@,
{
    assert(views(first).len() == first.len());
    assert(views(second).len() == second.len());
    assert forall|i: int| 0 <= i < first.len() implies (#[trigger] first[i])@ == second[i]@ by {
        assert(views(first)[i] == first[i]@);
        assert(views(second)[i] == second[i]@);
    }
}

/// Idempotent `Eof`: a pull that hands out `Eof` leaves the lexer where
/// the next pull does the same, and so does every pull after it.
pub proof fn lemma_eof_absorbing(src: Seq<u8>, cur: Cursor)
    requires
        cursor_wf(src, cur),
        is_end(step(src, cur).what),
    ensures
        step(src, step(src, cur).next) == step(src, cur),
        pulled(src, step(src, cur).next) == pulled(src, cur),
        forall|pulls: nat| is_end(#[trigger] step(src, cursor_from(src, cur, pulls)).what),
{
    lemma_step(src, cur);
    lemma_run_end(src, cur.pos, Class::Blank);
    let next = step(src, cur).next;
    assert(step(src, next) == step(src, cur));
    assert forall|pulls: nat| is_end(#[trigger] step(src, cursor_from(src, cur, pulls)).what) by {
        lemma_eof_stays(src, cur, pulls);
    }
}

/// From a pull that hands out `Eof` on, the lexer stays where that pull
/// has left it.
pub proof fn lemma_eof_stays(src: Seq<u8>, cur: Cursor, pulls: nat)
    requires
        cursor_wf(src, cur),
        is_end(step(src, cur).what),
    ensures
        step(src, cursor_from(src, cur, pulls)) == step(src, cur),
        pulls >= 1 ==> cursor_from(src, cur, pulls) == step(src, cur).next,
    decreases pulls,
{
    lemma_step(src, cur);
    lemma_run_end(src, cur.pos, Class::Blank);
    let next = step(src, cur).next;
    assert(step(src, next) == step(src, cur));
    if pulls >= 1 {
        lemma_eof_stays(src, next, (pulls - 1) as nat);
    }
}

/// Restartability from a cursor on: the item of the stream at index
/// `pulls` is what the pull after `pulls` pulls hands out, with the span
/// that this pull moves over; and from the last item on, every pull hands
/// out `Eof`.
pub proof fn lemma_pulls_from(src: Seq<u8>, cur: Cursor, pulls: nat)
    requires
        cursor_wf(src, cur),
    ensures
        cursor_wf(src, cursor_from(src, cur, pulls)),
        pulls < lex_from(src, cur).len() ==> lex_from(src, cur)[pulls as int] == (LexemeView {
            unit: pulled(src, cursor_from(src, cur, pulls)),
            start: cursor_from(src, cur, pulls).pos,
            end: step(src, cursor_from(src, cur, pulls)).next.pos,
        }),
        pulls + 1 >= lex_from(src, cur).len() <==> is_end(
            step(src, cursor_from(src, cur, pulls)).what,
        ),
    decreases pulls,
{
    let pull = step(src, cur);
    lemma_step(src, cur);
    lemma_stream_shape(src, cur);
    if pulls >= 1 {
        lemma_pulls_from(src, pull.next, (pulls - 1) as nat);
        if is_end(pull.what) {
            lemma_eof_stays(src, cur, pulls);
        } else {
            let rest = lex_from(src, pull.next);
            lemma_stream_shape(src, pull.next);
            if pulls < lex_from(src, cur).len() {
                assert(lex_from(src, cur)[pulls as int] == rest[pulls - 1]);
            }
        }
    }
}

/// Restartability: a lexer that starts at the beginning of a buffer hands
/// out, pull after pull, the items of the token stream of that buffer, and
/// `Eof` at every pull from the last item on. So every reading of one
/// buffer, in one go or pull by pull, gives the same sequence.
pub proof fn lemma_restartable(src: Seq<u8>, pulls: nat)
    requires
        src.len() <= usize::MAX,
    ensures
        pulls < lex(src).len() ==> lex(src)[pulls as int] == (LexemeView {
            unit: pulled(src, cursor_from(src, start_cursor(), pulls)),
            start: cursor_from(src, start_cursor(), pulls).pos,
            end: step(src, cursor_from(src, start_cursor(), pulls)).next.pos,
        }),
        pulls + 1 >= lex(src).len() <==> is_end(
            step(src, cursor_from(src, start_cursor(), pulls)).what,
        ),
{
    lemma_pulls_from(src, start_cursor(), pulls);
}

/// The items of a stream come in the order of the text: none lies behind
/// the one that follows it, by line and column.
pub proof fn lemma_places_ordered(src: Seq<u8>, cur: Cursor)
    requires
        cursor_wf(src, cur),
    ensures
        forall|i: int|
            0 <= i < lex_from(src, cur).len() - 1 ==> not_behind(
                (#[trigger] lex_from(src, cur)[i]).unit,
                lex_from(src, cur)[i + 1].unit,
            ),
    decreases src.len() - cur.pos,
{
    let pull = step(src, cur);
    let items = lex_from(src, cur);
    lemma_step(src, cur);
    if !is_end(pull.what) {
        let rest = lex_from(src, pull.next);
        lemma_places_ordered(src, pull.next);
        lemma_stream_shape(src, pull.next);
        lemma_step(src, pull.next);
        lemma_position_monotonic(src, pull.at, step(src, pull.next).at);
        assert forall|i: int| 0 <= i < items.len() - 1 implies not_behind(
            (#[trigger] items[i]).unit,
            items[i + 1].unit,
        ) by {
            if i >= 1 {
                assert(items[i] == rest[i - 1]);
                assert(items[i + 1] == rest[i]);
            } else {
                assert(items[1] == rest[0]);
            }
        }
    }
}

/// No punctuation mark starts with a byte that starts a name, a number or
/// a quoted literal, with a blank or with a line feed.
pub proof fn lemma_first_byte(k: Kind)
    requires
        k.is_punct(),
    ensures
        !is_word_start(k.text()[0]),
        !is_digit(k.text()[0]),
        k.text()[0] != '"' as u8,
        k.text()[0] != '\'' as u8,
        k.text()[0] != LINE_FEED,
        !Class::Blank.has(k.text()[0]),
{
    lemma_text_len(k);
}

/// Maximal munch: where a punctuation mark stands and no comment opens,
/// the lexeme is a punctuation mark that stands there, and no mark that
/// stands there is longer than it.
pub proof fn lemma_longest_operator(src: Seq<u8>, at: int, other: Kind)
    requires
        other.is_punct(),
        holds_at(src, at, other.text()),
        !comment_opens(src, at),
    ensures
        punct_at(src, at) is Some,
        ({
            let (k, n) = punct_at(src, at)->0;
            &&& lexeme_at(src, at).what == Ok::<KindView, ErrorKind>(KindView::Punct(k))
            &&& lexeme_at(src, at).end == at + n
            &&& k.is_punct()
            &&& n == k.text().len()
            &&& holds_at(src, at, k.text())
            &&& other.text().len() <= n
        }),
{
    lemma_maximal_munch(src, at, other);
    lemma_first_byte(other);
    lemma_text_len(other);
    assert(src[at] == src.subrange(at, at + other.text().len())[0]);
}

/// A punctuation token is written as its kind is: where a pull hands out
/// a punctuation kind, the bytes from the token's first byte to where the
/// pull ends are the text of that kind.
pub proof fn lemma_operator_lexeme(src: Seq<u8>, cur: Cursor)
    requires
        cursor_wf(src, cur),
        step(src, cur).what is Ok,
        step(src, cur).what->Ok_0 is Punct,
    ensures
        ({
            let k = step(src, cur).what->Ok_0->Punct_0;
            &&& k.is_punct()
            &&& src.subrange(step(src, cur).at, step(src, cur).next.pos) == k.text()
        }),
{
    let at = run_end(src, cur.pos, Class::Blank);
    lemma_run_end(src, cur.pos, Class::Blank);
    crate::punct::lemma_punct_at(src, at);
}

/// Round trip: the text of a punctuation kind is read as one token of that
/// kind, at line 1 and column 1, over the whole text, and then `Eof`.
pub proof fn lemma_symbol_round_trip(k: Kind)
    requires
        k.is_punct(),
    ensures
        lex(k.text()) == seq![
            LexemeView {
                unit: Unit { what: Ok(KindView::Punct(k)), line: 1, column: 1 },
                start: 0,
                end: k.text().len() as int,
            },
            LexemeView {
                unit: Unit { what: Ok(KindView::Eof), line: 1, column: k.text().len() as int + 1 },
                start: k.text().len() as int,
                end: k.text().len() as int,
            },
        ],
{
    let src = k.text();
    let n = src.len() as int;
    lemma_text_len(k);
    lemma_first_byte(k);
    lemma_text_round_trip(k);
    lemma_no_line_feed(k);
    assert(src.subrange(0, n) =~= src);
    assert(holds_at(src, 0, k.text()));
    lemma_not_comment(k);
    lemma_longest_operator(src, 0, k);
    let first = step(src, start_cursor());
    assert(Seq::<usize>::empty().take(0) =~= Seq::<usize>::empty());
    assert(first.next == Cursor { pos: n, fresh: false, levels: Seq::empty() });
    let second = step(src, first.next);
    lemma_same_line(src, 0, n);
    assert(lex_from(src, first.next) =~= seq![
        LexemeView {
            unit: Unit { what: Ok(KindView::Eof), line: 1, column: n + 1 },
            start: n,
            end: n,
        },
    ]);
    assert(lex(src) =~= seq![
        LexemeView { unit: Unit { what: Ok(KindView::Punct(k)), line: 1, column: 1 }, start: 0, end: n },
        LexemeView {
            unit: Unit { what: Ok(KindView::Eof), line: 1, column: n + 1 },
            start: n,
            end: n,
        },
    ]);
}

/// No punctuation mark holds a line feed.
pub proof fn lemma_no_line_feed(k: Kind)
    requires
        k.is_punct(),
    ensures
        forall|i: int| 0 <= i < k.text().len() ==> #[trigger] k.text()[i] != LINE_FEED,
{
    lemma_text_len(k);
    assert(k.text()[0] != LINE_FEED);
    assert(k.text().len() >= 2 ==> k.text()[1] != LINE_FEED);
    assert(k.text().len() >= 3 ==> k.text()[2] != LINE_FEED);
}

/// No punctuation mark opens a comment.
pub proof fn lemma_not_comment(k: Kind)
    requires
        k.is_punct(),
    ensures
        !comment_opens(k.text(), 0),
{
    lemma_text_len(k);
    if k.text().len() >= 2 {
        assert(!(k.text()[0] == '/' as u8 && (k.text()[1] == '/' as u8 || k.text()[1] == '*' as u8)));
    }
}

} // verus!

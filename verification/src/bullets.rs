//! Bulleted lists: bullet lines are first lexed independently into a flat
//! run of `(indentation level, bullet)` pairs, which a recursive consume
//! procedure then folds into a nested tree — equal level appends a sibling,
//! greater level builds a `Nested` subtree, lower level returns to the
//! caller. The flatten functions walk such a tree back in order,
//! re-annotating depth; on well-formed input the walk reproduces the flat
//! run exactly.

use vstd::prelude::*;

use crate::blocks::{
    bullet_items_view, clone_bullet_item, lemma_bullet_items_view_push, BulletItem, BulletItemView,
};
use crate::scan::char_end;
use crate::spans::{spec_lex_spans, tag_at, SpanView};

verus! {

/// The views of a flat run of `(indentation level, bullet)` pairs.
pub open spec fn flat_view(flat: Seq<(usize, BulletItem)>) -> Seq<(int, BulletItemView)> {
    flat.map_values(|p: (usize, BulletItem)| (p.0 as int, p.1@))
}

/// The indentation weight of the run of spaces and tabs at `pos`: one unit
/// per space and four per tab, as the bullet lexer counts them.
pub open spec fn indent_units(s: Seq<char>, pos: int) -> int
    decreases s.len() - pos,
{
    if pos < 0 || pos >= s.len() {
        0
    } else if s[pos] == ' ' {
        1 + indent_units(s, pos + 1)
    } else if s[pos] == '\t' {
        4 + indent_units(s, pos + 1)
    } else {
        0
    }
}

/// Where the run of indentation characters (spaces and tabs) at `pos` ends.
pub open spec fn indent_end(s: Seq<char>, pos: int) -> int
    decreases s.len() - pos,
{
    if pos < 0 || pos >= s.len() {
        s.len() as int
    } else if s[pos] == ' ' || s[pos] == '\t' {
        indent_end(s, pos + 1)
    } else {
        pos
    }
}

/// An indentation run never moves backwards, never leaves the input, and
/// its weight is never negative.
pub proof fn lemma_indent_bounds(s: Seq<char>, pos: int)
    requires
        0 <= pos <= s.len(),
    ensures
        pos <= indent_end(s, pos) <= s.len(),
        indent_units(s, pos) >= 0,
    decreases s.len() - pos,
{
    if pos < s.len() && (s[pos] == ' ' || s[pos] == '\t') {
        lemma_indent_bounds(s, pos + 1);
    }
}

/// One bullet line at `pos`: optional indentation, the bullet marker
/// `* `, then span-lexed text running to the end of the line. Yields the
/// position after the text (an ending newline is not consumed), the
/// indentation level (indentation weight divided by four, floored), and
/// the lexed spans. Fails when there is no marker or the text is empty.
pub open spec fn spec_parse_bullet_item(s: Seq<char>, pos: int) -> Option<
    (int, int, Seq<SpanView>),
> {
    let ie = indent_end(s, pos);
    if tag_at(s, ie, "* "@) {
        let te = char_end(s, ie + 2, '\n');
        if te > ie + 2 {
            Some((te, indent_units(s, pos) / 4, spec_lex_spans(s.subrange(ie + 2, te), 0)))
        } else {
            None
        }
    } else {
        None
    }
}

/// The flat run of bullet lines at `pos`, each preceded by any number of
/// newlines: bullet items are taken until a line fails to parse as one.
/// Yields the position after the last bullet line and the `(level, spans)`
/// pairs in order. The guard on the recursion is always satisfied, since a
/// successful bullet parse advances the position.
pub open spec fn spec_lex_bullets(s: Seq<char>, pos: int) -> (int, Seq<(int, Seq<SpanView>)>)
    decreases s.len() - pos,
{
    let p = crate::scan::skip_nl(s, pos);
    match spec_parse_bullet_item(s, p) {
        Some((p2, level, spans)) => {
            if pos < p2 <= s.len() {
                let rest = spec_lex_bullets(s, p2);
                (rest.0, seq![(level, spans)] + rest.1)
            } else {
                (p2, seq![(level, spans)])
            }
        },
        None => (pos, seq![]),
    }
}

/// The first position at or after `pos` whose flat item sits at a level
/// below `level`, or the end of the run: where tree building for `level`
/// stops consuming.
pub open spec fn seg_end(flat: Seq<(int, BulletItemView)>, pos: int, level: int) -> int
    decreases flat.len() - pos,
{
    if pos < 0 || pos >= flat.len() {
        flat.len() as int
    } else if flat[pos].0 < level {
        pos
    } else {
        seg_end(flat, pos + 1, level)
    }
}

/// Tree building for `level` stops inside the run, no earlier than where it
/// started; every item before the stop sits at or above `level`, and the
/// item at the stop, if any, sits below it.
pub proof fn lemma_seg_end_bounds(flat: Seq<(int, BulletItemView)>, pos: int, level: int)
    requires
        0 <= pos <= flat.len(),
    ensures
        pos <= seg_end(flat, pos, level) <= flat.len(),
        forall|i: int| pos <= i < seg_end(flat, pos, level) ==> flat[i].0 >= level,
        seg_end(flat, pos, level) < flat.len() ==> flat[seg_end(flat, pos, level)].0 < level,
    decreases flat.len() - pos,
{
    if pos < flat.len() && !(flat[pos].0 < level) {
        lemma_seg_end_bounds(flat, pos + 1, level);
    }
}

/// Items at or above `level` do not stop tree building for `level`:
/// skipping over a run of them leaves the stopping position unchanged.
proof fn lemma_seg_end_skip(flat: Seq<(int, BulletItemView)>, pos: int, mid: int, level: int)
    requires
        0 <= pos <= mid <= flat.len(),
        forall|i: int| pos <= i < mid ==> flat[i].0 >= level,
    ensures
        seg_end(flat, pos, level) == seg_end(flat, mid, level),
    decreases mid - pos,
{
    if pos < mid {
        lemma_seg_end_skip(flat, pos + 1, mid, level);
    }
}

/// The bullet tree built from the flat items at and after `pos`, all taken
/// until the first item below `level`: an item at `level` becomes a
/// sibling, an item above it opens a `Nested` subtree that consumes the
/// deeper run, and an item below it ends the walk. The clamp on the
/// continuation position never binds (`lemma_seg_end_bounds`); it only
/// bounds the recursion.
pub open spec fn spec_collect(
    flat: Seq<(int, BulletItemView)>,
    pos: int,
    level: int,
) -> Seq<BulletItemView>
    decreases flat.len() - pos,
{
    if pos < 0 || pos >= flat.len() {
        seq![]
    } else {
        let l = flat[pos].0;
        if l < level {
            seq![]
        } else if l == level {
            seq![flat[pos].1] + spec_collect(flat, pos + 1, level)
        } else {
            let e0 = seg_end(flat, pos + 1, l);
            let e = if e0 < pos + 1 {
                pos + 1
            } else if e0 > flat.len() {
                flat.len() as int
            } else {
                e0
            };
            let inner = seq![flat[pos].1] + spec_collect(flat, pos + 1, l);
            seq![BulletItemView::Nested(inner)] + spec_collect(flat, e, level)
        }
    }
}

/// One step of the in-order depth walk: a single bullet re-annotated with
/// the depth it stands at; a nested node walks its children one level
/// deeper.
pub open spec fn flatten_item(item: BulletItemView, level: int) -> Seq<(int, BulletItemView)>
    decreases item,
{
    match item {
        BulletItemView::Single(spans) => seq![(level, BulletItemView::Single(spans))],
        BulletItemView::Nested(children) => flatten_items(children, level + 1),
    }
}

/// The in-order depth walk of a bullet forest at depth `level`.
pub open spec fn flatten_items(items: Seq<BulletItemView>, level: int) -> Seq<
    (int, BulletItemView),
>
    decreases items,
{
    if items.len() == 0 {
        seq![]
    } else {
        flatten_item(items[0], level) + flatten_items(items.drop_first(), level)
    }
}

/// A flat `(level, item)` run is well formed when it starts at level zero,
/// never steps up by more than one level at a time, and holds only single
/// bullets at non-negative levels.
pub open spec fn well_formed_flat(flat: Seq<(int, BulletItemView)>) -> bool {
    &&& flat.len() > 0 ==> flat[0].0 == 0
    &&& forall|i: int| 0 < i < flat.len() ==> #[trigger] flat[i].0 <= flat[i - 1].0 + 1
    &&& forall|i: int| 0 <= i < flat.len() ==> #[trigger] flat[i].0 >= 0 && flat[i].1 is Single
}

/// Tree building from `pos` at `level`, flattened back at the same depth,
/// reproduces exactly the consumed part of the run — provided the run never
/// steps up by more than one level, holds only single bullets, and does not
/// start above `level + 1`.
#[verifier::rlimit(60)]
proof fn lemma_collect_flatten(flat: Seq<(int, BulletItemView)>, pos: int, level: int)
    requires
        0 <= pos <= flat.len(),
        0 <= level,
        forall|i: int| 0 < i < flat.len() ==> #[trigger] flat[i].0 <= flat[i - 1].0 + 1,
        forall|i: int| 0 <= i < flat.len() ==> #[trigger] flat[i].0 >= 0 && flat[i].1 is Single,
        pos < flat.len() ==> flat[pos].0 <= level + 1,
    ensures
        flatten_items(spec_collect(flat, pos, level), level) == flat.subrange(
            pos,
            seg_end(flat, pos, level),
        ),
    decreases flat.len() - pos,
{
    lemma_seg_end_bounds(flat, pos, level);
    if pos >= flat.len() {
        assert(flat.subrange(pos, pos) =~= Seq::<(int, BulletItemView)>::empty());
        assert(flatten_items(spec_collect(flat, pos, level), level) =~= flat.subrange(
            pos,
            seg_end(flat, pos, level),
        ));
    } else {
        let l = flat[pos].0;
        if l < level {
            assert(flat.subrange(pos, pos) =~= Seq::<(int, BulletItemView)>::empty());
            assert(flatten_items(spec_collect(flat, pos, level), level) =~= flat.subrange(
                pos,
                seg_end(flat, pos, level),
            ));
        } else if l == level {
            lemma_collect_flatten(flat, pos + 1, level);
            let items = spec_collect(flat, pos, level);
            let rest = spec_collect(flat, pos + 1, level);
            assert(items == seq![flat[pos].1] + rest);
            assert(items.len() > 0);
            assert(items[0] == flat[pos].1);
            assert(items.drop_first() =~= rest);
            assert(flatten_item(flat[pos].1, level) == seq![(level, flat[pos].1)]);
            assert((level, flat[pos].1) == flat[pos]);
            let e = seg_end(flat, pos, level);
            assert(seg_end(flat, pos + 1, level) == e);
            assert(flatten_items(items, level) == flatten_item(items[0], level) + flatten_items(
                items.drop_first(),
                level,
            ));
            assert(flat.subrange(pos, e) =~= seq![flat[pos]] + flat.subrange(pos + 1, e));
            assert(flatten_items(spec_collect(flat, pos, level), level) =~= flat.subrange(
                pos,
                seg_end(flat, pos, level),
            ));
        } else {
            assert(l == level + 1);
            lemma_seg_end_bounds(flat, pos + 1, l);
            let e1 = seg_end(flat, pos + 1, l);
            lemma_collect_flatten(flat, pos + 1, l);
            let inner = seq![flat[pos].1] + spec_collect(flat, pos + 1, l);
            assert(inner[0] == flat[pos].1);
            assert(inner.drop_first() =~= spec_collect(flat, pos + 1, l));
            assert(flatten_item(flat[pos].1, l) == seq![(l, flat[pos].1)]);
            assert((l, flat[pos].1) == flat[pos]);
            assert(flatten_items(inner, l) == flatten_item(inner[0], l) + flatten_items(
                inner.drop_first(),
                l,
            ));
            assert(flatten_items(inner, l) =~= flat.subrange(pos, e1));
            // the clamp on the continuation position does not bind
            assert(spec_collect(flat, pos, level) == seq![BulletItemView::Nested(inner)]
                + spec_collect(flat, e1, level));
            if e1 < flat.len() {
                assert(flat[e1].0 < l);
            }
            lemma_collect_flatten(flat, e1, level);
            assert forall|i: int| pos <= i < e1 implies flat[i].0 >= level by {
                if i > pos {
                    assert(flat[i].0 >= l);
                }
            }
            lemma_seg_end_skip(flat, pos, e1, level);
            let e = seg_end(flat, pos, level);
            assert(seg_end(flat, e1, level) == e);
            let items = spec_collect(flat, pos, level);
            assert(items[0] == BulletItemView::Nested(inner));
            assert(items.drop_first() =~= spec_collect(flat, e1, level));
            assert(flatten_items(items, level) == flatten_item(items[0], level) + flatten_items(
                items.drop_first(),
                level,
            ));
            assert(flatten_item(BulletItemView::Nested(inner), level) == flatten_items(
                inner,
                level + 1,
            ));
            assert(flat.subrange(pos, e) =~= flat.subrange(pos, e1) + flat.subrange(e1, e));
            assert(flatten_items(spec_collect(flat, pos, level), level) =~= flat.subrange(
                pos,
                seg_end(flat, pos, level),
            ));
        }
    }
}

/// Law: rebuilding a tree from any well-formed flat `(level, item)` run and
/// flattening it back by an in-order depth walk that re-annotates depth
/// reproduces the original run exactly.
pub proof fn lemma_list_nesting_round_trip(flat: Seq<(int, BulletItemView)>)
    requires
        well_formed_flat(flat),
    ensures
        flatten_items(spec_collect(flat, 0, 0), 0) == flat,
{
    lemma_collect_flatten(flat, 0, 0);
    lemma_seg_end_bounds(flat, 0, 0);
    assert(seg_end(flat, 0, 0) == flat.len());
    assert(flat.subrange(0, flat.len() as int) =~= flat);
}

/// Builds the bullet tree for `level` from the flat items at and after
/// `pos`, appending the siblings for `level` to `out`; returns the position
/// of the first item below `level`.
pub fn collect_from(
    flat: &Vec<(usize, BulletItem)>,
    pos: usize,
    level: usize,
    out: &mut Vec<BulletItem>,
) -> (new_pos: usize)
    requires
        pos <= flat@.len(),
    ensures
        pos <= new_pos <= flat@.len(),
        new_pos as int == seg_end(flat_view(flat@), pos as int, level as int),
        bullet_items_view(final(out)@) == bullet_items_view(old(out)@) + spec_collect(
            flat_view(flat@),
            pos as int,
            level as int,
        ),
    decreases flat@.len() - pos,
{
    let ghost fv = flat_view(flat@);
    if pos >= flat.len() {
        proof {
            assert(bullet_items_view(out@) =~= bullet_items_view(out@) + spec_collect(
                fv,
                pos as int,
                level as int,
            ));
        }
        return pos;
    }
    let l = flat[pos].0;
    proof {
        assert(fv[pos as int] == (flat@[pos as int].0 as int, flat@[pos as int].1@));
    }
    if l < level {
        proof {
            assert(bullet_items_view(out@) =~= bullet_items_view(out@) + spec_collect(
                fv,
                pos as int,
                level as int,
            ));
        }
        pos
    } else if l == level {
        let ghost prev = out@;
        let item = clone_bullet_item(&flat[pos].1);
        out.push(item);
        proof {
            lemma_bullet_items_view_push(prev, out@[out@.len() - 1]);
        }
        let ghost mid = out@;
        let new_pos = collect_from(flat, pos + 1, level, out);
        proof {
            assert(bullet_items_view(mid) == bullet_items_view(prev).push(fv[pos as int].1));
            assert(bullet_items_view(out@) =~= bullet_items_view(prev) + spec_collect(
                fv,
                pos as int,
                level as int,
            ));
        }
        new_pos
    } else {
        let mut inner: Vec<BulletItem> = Vec::new();
        let item = clone_bullet_item(&flat[pos].1);
        inner.push(item);
        proof {
            lemma_bullet_items_view_push(Seq::<BulletItem>::empty(), inner@[0]);
            assert(bullet_items_view(Seq::<BulletItem>::empty())
                == Seq::<BulletItemView>::empty());
            assert(bullet_items_view(inner@) =~= seq![fv[pos as int].1]);
        }
        let p = collect_from(flat, pos + 1, l, &mut inner);
        proof {
            assert(bullet_items_view(inner@) =~= seq![fv[pos as int].1] + spec_collect(
                fv,
                pos as int + 1,
                l as int,
            ));
            lemma_seg_end_bounds(fv, pos as int + 1, l as int);
            assert forall|i: int| pos as int + 1 <= i < p as int implies fv[i].0 >= level as int
                by {
                assert(fv[i].0 >= l as int);
            }
            lemma_seg_end_skip(fv, pos as int + 1, p as int, level as int);
            assert(seg_end(fv, pos as int, level as int) == seg_end(fv, pos as int + 1, level as int));
        }
        let ghost prev = out@;
        out.push(BulletItem::Nested(inner));
        proof {
            lemma_bullet_items_view_push(prev, out@[out@.len() - 1]);
        }
        let new_pos = collect_from(flat, p, level, out);
        proof {
            assert(bullet_items_view(out@) =~= bullet_items_view(prev) + spec_collect(
                fv,
                pos as int,
                level as int,
            ));
        }
        new_pos
    }
}

/// Folds a flat run of `(indentation level, bullet)` pairs into a nested
/// tree rooted at `current_indentation`, appending the tree's top-level
/// items to `nested`; the consumed items are removed from the front of
/// `flat`.
pub fn collect_bullet_items(
    flat: &mut Vec<(usize, BulletItem)>,
    nested: &mut Vec<BulletItem>,
    current_indentation: usize,
)
    ensures
        bullet_items_view(final(nested)@) == bullet_items_view(old(nested)@) + spec_collect(
            flat_view(old(flat)@),
            0,
            current_indentation as int,
        ),
        flat_view(final(flat)@) == flat_view(old(flat)@).subrange(
            seg_end(flat_view(old(flat)@), 0, current_indentation as int),
            old(flat)@.len() as int,
        ),
{
    let ghost fv = flat_view(old(flat)@);
    let p = collect_from(flat, 0, current_indentation, nested);
    let mut rest: Vec<(usize, BulletItem)> = Vec::new();
    let mut i: usize = p;
    while i < flat.len()
        invariant
            p <= i <= flat@.len(),
            flat@ == old(flat)@,
            rest@.len() == i - p,
            forall|k: int|
                0 <= k < rest@.len() ==> rest@[k].0 == flat@[p + k].0 && rest@[k].1@ == flat@[p
                    + k].1@,
        decreases flat@.len() - i,
    {
        let level = flat[i].0;
        let item = clone_bullet_item(&flat[i].1);
        rest.push((level, item));
        i = i + 1;
    }
    proof {
        assert(flat_view(rest@) =~= flat_view(flat@).subrange(p as int, flat@.len() as int));
    }
    *flat = rest;
}

} // verus!

//! Placement of image markers on the lines of the reflowed post text.
//!
//! The text that a reader sees has lost the tags of the markup, so the place
//! of an image in it can only be estimated: an image whose tag was found in
//! the markup is put as far into the text as the tag lies into the markup; the
//! others are spread evenly, each held between its neighbours so that the
//! markers follow one another down the text.

use vstd::prelude::*;
use crate::extract::{reference_views, ImageReference, ReferenceModel};

verus! {

/// The line at which the marker of one image is shown.
#[derive(Clone, Copy, Debug, PartialEq, Eq, Structural)]
pub struct PlacementHint {
    /// Position of the image among the qualifying images of its document.
    pub ordinal: usize,
    /// Index of the output line that carries the marker.
    pub line: usize,
}

/// What a `PlacementHint` stands for.
pub struct HintModel {
    pub ordinal: int,
    pub line: int,
}

impl View for PlacementHint {
    type V = HintModel;

    open spec fn view(&self) -> HintModel {
        HintModel { ordinal: self.ordinal as int, line: self.line as int }
    }
}

/// The models of a list of hints.
pub open spec fn hint_views(hints: Seq<PlacementHint>) -> Seq<HintModel> {
    hints.map_values(|hint: PlacementHint| hint@)
}

/// The smallest distance between two evenly distributed markers.
pub const MIN_SPACING: usize = 3;

/// The larger of two numbers.
pub open spec fn larger(a: int, b: int) -> int {
    if a < b {
        b
    } else {
        a
    }
}

/// The smaller of two numbers.
pub open spec fn smaller(a: int, b: int) -> int {
    if a < b {
        a
    } else {
        b
    }
}

/// The line that lies as far into the output as `offset` lies into the markup:
/// `floor(offset / markup_len * total_lines)`, held below `total_lines`.
pub open spec fn proportional_line(offset: int, markup_len: int, total_lines: int) -> int {
    smaller((offset * total_lines) / markup_len, total_lines - 1)
}

/// The tag of the image was found, and the markup has a length to measure it against.
pub open spec fn is_resolved(reference: ReferenceModel, markup_len: int) -> bool {
    reference.raw_offset is Some && markup_len > 0
}

/// The number of unresolved references among the first `n`.
pub open spec fn unresolved_before(references: Seq<ReferenceModel>, markup_len: int, n: int) -> int
    decreases n,
{
    if n <= 0 {
        0
    } else {
        unresolved_before(references, markup_len, n - 1) + if is_resolved(
            references[n - 1],
            markup_len,
        ) {
            0int
        } else {
            1int
        }
    }
}

/// The number of unresolved references.
pub open spec fn unresolved_count(references: Seq<ReferenceModel>, markup_len: int) -> int {
    unresolved_before(references, markup_len, references.len() as int)
}

/// The distance between evenly distributed markers: the lines shared out
/// among the markers and the two ends, but never less than `MIN_SPACING`.
pub open spec fn spacing(total_lines: int, unresolved: int) -> int {
    let even = total_lines / (unresolved + 1);
    if even > MIN_SPACING {
        even
    } else {
        MIN_SPACING as int
    }
}

/// The line of the `k`-th evenly distributed marker, counted from 0.
pub open spec fn fallback_line(k: int, spacing: int, total_lines: int) -> int {
    smaller((k + 1) * spacing, total_lines - 1)
}

/// The last line on which the marker of the reference at `index` may
/// stand: the line of the next reference behind it that is resolved, or
/// the last line of the output if there is none.
pub open spec fn line_limit(
    references: Seq<ReferenceModel>,
    index: int,
    markup_len: int,
    total_lines: int,
) -> int
    decreases references.len() - index,
{
    if index < 0 || index + 1 >= references.len() {
        total_lines - 1
    } else if is_resolved(references[index + 1], markup_len) {
        proportional_line(references[index + 1].raw_offset->0, markup_len, total_lines)
    } else {
        line_limit(references, index + 1, markup_len, total_lines)
    }
}

/// The line of the marker of the reference at `index`. A resolved
/// reference stands on its proportional line. An unresolved one stands on
/// its line of the even distribution, but not above the marker before it
/// and not below the next resolved one.
pub open spec fn hint_line(
    references: Seq<ReferenceModel>,
    index: int,
    markup_len: int,
    total_lines: int,
) -> int
    decreases index,
{
    if is_resolved(references[index], markup_len) {
        proportional_line(references[index].raw_offset->0, markup_len, total_lines)
    } else {
        let wanted = fallback_line(
            unresolved_before(references, markup_len, index),
            spacing(total_lines, unresolved_count(references, markup_len)),
            total_lines,
        );
        let floor = if index <= 0 {
            0
        } else {
            hint_line(references, index - 1, markup_len, total_lines)
        };
        smaller(larger(wanted, floor), line_limit(references, index, markup_len, total_lines))
    }
}

/// The hints for a list of references: one for each, in their order, or none
/// at all where there is no line to put a marker on.
pub open spec fn placement(
    references: Seq<ReferenceModel>,
    markup_len: int,
    total_lines: int,
) -> Seq<HintModel> {
    if total_lines <= 0 {
        Seq::empty()
    } else {
        Seq::new(
            references.len(),
            |index: int|
                HintModel {
                    ordinal: references[index].ordinal,
                    line: hint_line(references, index, markup_len, total_lines),
                },
        )
    }
}

/// Every line is one of the output.
pub open spec fn lines_in_range(hints: Seq<HintModel>, total_lines: int) -> bool {
    forall|i: int| 0 <= i < hints.len() ==> 0 <= (#[trigger] hints[i]).line < total_lines
}

/// No line is smaller than one before it.
pub open spec fn lines_non_decreasing(hints: Seq<HintModel>) -> bool {
    forall|i: int, j: int|
        0 <= i < j < hints.len() ==> (#[trigger] hints[i]).line <= (#[trigger] hints[j]).line
}

/// No reference has an offset.
pub open spec fn none_located(references: Seq<ReferenceModel>) -> bool {
    forall|i: int| 0 <= i < references.len() ==> (#[trigger] references[i]).raw_offset is None
}

/// No offset that is known is smaller than a known one before it.
pub open spec fn known_offsets_ordered(references: Seq<ReferenceModel>) -> bool {
    forall|i: int, j: int|
        0 <= i < j < references.len() ==> match (
            (#[trigger] references[i]).raw_offset,
            (#[trigger] references[j]).raw_offset,
        ) {
            (Some(first), Some(second)) => first <= second,
            _ => true,
        }
}

/// The offsets that are known are not negative.
pub open spec fn offsets_are_natural(references: Seq<ReferenceModel>) -> bool {
    forall|i: int|
        0 <= i < references.len() ==> match (#[trigger] references[i]).raw_offset {
            Some(offset) => 0 <= offset,
            None => true,
        }
}

/// Each reference has a larger ordinal than those before it.
pub open spec fn references_ordered(references: Seq<ReferenceModel>) -> bool {
    forall|i: int, j: int|
        0 <= i < j < references.len() ==> (#[trigger] references[i]).ordinal < (
        #[trigger] references[j]).ordinal
}

/// Each hint has a larger ordinal than those before it.
pub open spec fn hints_ordered(hints: Seq<HintModel>) -> bool {
    forall|i: int, j: int|
        0 <= i < j < hints.len() ==> (#[trigger] hints[i]).ordinal < (#[trigger] hints[j]).ordinal
}

/// Computes `proportional_line` without overflow.
pub fn proportional(offset: usize, markup_len: usize, total_lines: usize) -> (line: usize)
    requires
        markup_len > 0,
        total_lines > 0,
    ensures
        line == proportional_line(offset as int, markup_len as int, total_lines as int),
        line < total_lines,
{
    assert(offset * total_lines <= usize::MAX * usize::MAX) by (nonlinear_arith)
        requires
            0 <= offset <= usize::MAX,
            0 <= total_lines <= usize::MAX,
    ;
    let product: u128 = (offset as u128) * (total_lines as u128);
    let quotient: u128 = product / (markup_len as u128);
    if quotient < (total_lines - 1) as u128 {
        quotient as usize
    } else {
        total_lines - 1
    }
}

/// Computes `spacing` without overflow.
pub fn marker_spacing(total_lines: usize, unresolved: usize) -> (distance: usize)
    ensures
        distance == spacing(total_lines as int, unresolved as int),
        distance >= MIN_SPACING,
{
    let even: u128 = (total_lines as u128) / (unresolved as u128 + 1);
    assert(even <= total_lines) by (nonlinear_arith)
        requires
            even == (total_lines as int) / (unresolved as int + 1),
            total_lines >= 0,
            unresolved >= 0,
    ;
    if even > MIN_SPACING as u128 {
        even as usize
    } else {
        MIN_SPACING
    }
}

/// Computes `fallback_line` without overflow.
pub fn fallback(k: usize, distance: usize, total_lines: usize) -> (line: usize)
    requires
        total_lines > 0,
    ensures
        line == fallback_line(k as int, distance as int, total_lines as int),
        line < total_lines,
{
    assert((k + 1) * distance <= (usize::MAX + 1) * usize::MAX) by (nonlinear_arith)
        requires
            0 <= k <= usize::MAX,
            0 <= distance <= usize::MAX,
    ;
    let product: u128 = (k as u128 + 1) * (distance as u128);
    if product < (total_lines - 1) as u128 {
        product as usize
    } else {
        total_lines - 1
    }
}

/// Counts the references that have no offset to place them by.
pub fn count_unresolved(references: &Vec<ImageReference>, markup_len: usize) -> (count: usize)
    ensures
        count == unresolved_count(reference_views(references@), markup_len as int),
        count <= references@.len(),
{
    let mut count: usize = 0;
    for i in 0..references.len()
        invariant
            count == unresolved_before(reference_views(references@), markup_len as int, i as int),
            count <= i,
    {
        if references[i].raw_offset.is_none() || markup_len == 0 {
            count += 1;
        }
    }
    count
}

/// Finds for each reference the last line on which its marker may stand.
fn line_limits(
    references: &Vec<ImageReference>,
    markup_len: usize,
    total_lines: usize,
) -> (limits: Vec<usize>)
    requires
        total_lines > 0,
    ensures
        limits@.len() == references@.len(),
        forall|i: int|
            0 <= i < limits@.len() ==> (#[trigger] limits@[i]) == line_limit(
                reference_views(references@),
                i,
                markup_len as int,
                total_lines as int,
            ),
{
    let count = references.len();
    let ghost models = reference_views(references@);
    let mut limits: Vec<usize> = Vec::new();
    let last = total_lines - 1;
    for i in 0..count
        invariant
            limits@.len() == i,
    {
        limits.push(last);
    }
    let mut next: usize = count;
    while next > 0
        invariant
            next <= count,
            count == references@.len(),
            limits@.len() == count,
            total_lines > 0,
            models == reference_views(references@),
            forall|i: int|
                next <= i < count ==> (#[trigger] limits@[i]) == line_limit(
                    models,
                    i,
                    markup_len as int,
                    total_lines as int,
                ),
        decreases next,
    {
        next -= 1;
        let limit = if next + 1 >= count {
            total_lines - 1
        } else {
            match references[next + 1].raw_offset {
                Some(offset) if markup_len > 0 => proportional(offset, markup_len, total_lines),
                _ => limits[next + 1],
            }
        };
        limits[next] = limit;
    }
    limits
}

/// Decides at which output line the marker of each image is shown.
///
/// There is one hint for each reference, in the order of the references, and
/// every line is one of the `total_lines` lines of the output. Where the
/// offsets that are known do not go backwards, the lines do not either.
pub fn place_references(
    references: &Vec<ImageReference>,
    markup_len: usize,
    total_lines: usize,
) -> (hints: Vec<PlacementHint>)
    ensures
        hint_views(hints@) == placement(
            reference_views(references@),
            markup_len as int,
            total_lines as int,
        ),
        lines_in_range(hint_views(hints@), total_lines as int),
        known_offsets_ordered(reference_views(references@)) ==> lines_non_decreasing(
            hint_views(hints@),
        ),
{
    let mut hints: Vec<PlacementHint> = Vec::new();
    let ghost models = reference_views(references@);
    if total_lines == 0 {
        assert(hint_views(hints@) =~= Seq::empty());
        return hints;
    }
    let unresolved = count_unresolved(references, markup_len);
    let distance = marker_spacing(total_lines, unresolved);
    let limits = line_limits(references, markup_len, total_lines);
    let mut k: usize = 0;
    let mut floor: usize = 0;
    for i in 0..references.len()
        invariant
            total_lines > 0,
            models == reference_views(references@),
            unresolved == unresolved_count(models, markup_len as int),
            distance == spacing(total_lines as int, unresolved as int),
            limits@.len() == references@.len(),
            forall|n: int|
                0 <= n < limits@.len() ==> (#[trigger] limits@[n]) == line_limit(
                    models,
                    n,
                    markup_len as int,
                    total_lines as int,
                ),
            k == unresolved_before(models, markup_len as int, i as int),
            k <= i,
            floor == if i == 0 {
                0
            } else {
                hint_line(models, i - 1, markup_len as int, total_lines as int)
            },
            hints@.len() == i,
            forall|n: int|
                0 <= n < i ==> (#[trigger] hints@[n])@ == placement(
                    models,
                    markup_len as int,
                    total_lines as int,
                )[n],
    {
        let line = match references[i].raw_offset {
            Some(offset) if markup_len > 0 => proportional(offset, markup_len, total_lines),
            _ => {
                let wanted = fallback(k, distance, total_lines);
                let raised = if wanted < floor {
                    floor
                } else {
                    wanted
                };
                k += 1;
                if raised < limits[i] {
                    raised
                } else {
                    limits[i]
                }
            },
        };
        floor = line;
        hints.push(PlacementHint { ordinal: references[i].ordinal, line });
    }
    assert(hint_views(hints@) =~= placement(models, markup_len as int, total_lines as int));
    proof {
        lemma_views_have_natural_offsets(references@);
        lemma_lines_in_range(models, markup_len as int, total_lines as int);
        if known_offsets_ordered(models) {
            lemma_lines_non_decreasing(models, markup_len as int, total_lines as int);
        }
    }
    hints
}

/// The offsets of references that were read from memory are not negative.
pub proof fn lemma_views_have_natural_offsets(references: Seq<ImageReference>)
    ensures
        offsets_are_natural(reference_views(references)),
{
    let models = reference_views(references);
    assert forall|i: int| 0 <= i < models.len() implies match (#[trigger] models[i]).raw_offset {
        Some(offset) => 0 <= offset,
        None => true,
    } by {
        assert(models[i] == references[i]@);
    }
}

/// There is one hint for each reference, with its ordinal: where the
/// ordinals of the references increase, so do those of the hints.
pub proof fn lemma_hints_follow_references(
    references: Seq<ReferenceModel>,
    markup_len: int,
    total_lines: int,
)
    requires
        total_lines > 0,
    ensures
        placement(references, markup_len, total_lines).len() == references.len(),
        forall|i: int|
            0 <= i < references.len() ==> (#[trigger] placement(
                references,
                markup_len,
                total_lines,
            )[i]).ordinal == references[i].ordinal,
        references_ordered(references) ==> hints_ordered(
            placement(references, markup_len, total_lines),
        ),
{
    let hints = placement(references, markup_len, total_lines);
    if references_ordered(references) {
        assert forall|i: int, j: int| 0 <= i < j < hints.len() implies (#[trigger] hints[i]).ordinal
            < (#[trigger] hints[j]).ordinal by {
            assert(references[i].ordinal < references[j].ordinal);
        }
    }
}

/// The count of unresolved references among the first `n` lies between 0 and `n`.
pub proof fn lemma_unresolved_before_bounds(
    references: Seq<ReferenceModel>,
    markup_len: int,
    n: int,
)
    requires
        0 <= n,
    ensures
        0 <= unresolved_before(references, markup_len, n) <= n,
    decreases n,
{
    if n > 0 {
        lemma_unresolved_before_bounds(references, markup_len, n - 1);
    }
}

/// Where no reference is resolved, each one is counted.
pub proof fn lemma_unresolved_before_all(references: Seq<ReferenceModel>, markup_len: int, n: int)
    requires
        0 <= n <= references.len(),
        forall|i: int|
            0 <= i < references.len() ==> !is_resolved(#[trigger] references[i], markup_len),
    ensures
        unresolved_before(references, markup_len, n) == n,
    decreases n,
{
    if n > 0 {
        lemma_unresolved_before_all(references, markup_len, n - 1);
    }
}

/// A proportional line is a line of the output.
pub proof fn lemma_proportional_in_range(offset: int, markup_len: int, total_lines: int)
    requires
        0 <= offset,
        markup_len > 0,
        total_lines > 0,
    ensures
        0 <= proportional_line(offset, markup_len, total_lines) < total_lines,
{
    assert((offset * total_lines) / markup_len >= 0) by (nonlinear_arith)
        requires
            offset >= 0,
            total_lines > 0,
            markup_len > 0,
    ;
}

/// A larger offset has no smaller proportional line.
pub proof fn lemma_proportional_grows(first: int, second: int, markup_len: int, total_lines: int)
    requires
        0 <= first <= second,
        markup_len > 0,
        total_lines > 0,
    ensures
        proportional_line(first, markup_len, total_lines) <= proportional_line(
            second,
            markup_len,
            total_lines,
        ),
{
    assert((first * total_lines) / markup_len <= (second * total_lines) / markup_len)
        by (nonlinear_arith)
        requires
            0 <= first <= second,
            total_lines > 0,
            markup_len > 0,
    ;
}

/// The last line on which a marker may stand is a line of the output.
pub proof fn lemma_limit_in_range(
    references: Seq<ReferenceModel>,
    index: int,
    markup_len: int,
    total_lines: int,
)
    requires
        offsets_are_natural(references),
        total_lines > 0,
    ensures
        0 <= line_limit(references, index, markup_len, total_lines) < total_lines,
    decreases references.len() - index,
{
    if index < 0 || index + 1 >= references.len() {
    } else if is_resolved(references[index + 1], markup_len) {
        lemma_proportional_in_range(
            references[index + 1].raw_offset->0,
            markup_len,
            total_lines,
        );
    } else {
        lemma_limit_in_range(references, index + 1, markup_len, total_lines);
    }
}

/// The line of a marker is a line of the output.
pub proof fn lemma_line_in_range(
    references: Seq<ReferenceModel>,
    index: int,
    markup_len: int,
    total_lines: int,
)
    requires
        offsets_are_natural(references),
        total_lines > 0,
        0 <= index < references.len(),
    ensures
        0 <= hint_line(references, index, markup_len, total_lines) < total_lines,
    decreases index,
{
    if is_resolved(references[index], markup_len) {
        lemma_proportional_in_range(references[index].raw_offset->0, markup_len, total_lines);
    } else {
        lemma_unresolved_before_bounds(references, markup_len, index);
        lemma_limit_in_range(references, index, markup_len, total_lines);
        let k = unresolved_before(references, markup_len, index);
        let distance = spacing(total_lines, unresolved_count(references, markup_len));
        assert((k + 1) * distance >= 0) by (nonlinear_arith)
            requires
                k >= 0,
                distance >= 3,
        ;
        if index > 0 {
            lemma_line_in_range(references, index - 1, markup_len, total_lines);
        }
    }
}

/// Every hint names a line of the output, whatever the references are.
pub proof fn lemma_lines_in_range(
    references: Seq<ReferenceModel>,
    markup_len: int,
    total_lines: int,
)
    requires
        offsets_are_natural(references),
    ensures
        lines_in_range(placement(references, markup_len, total_lines), total_lines),
{
    let hints = placement(references, markup_len, total_lines);
    assert forall|i: int| 0 <= i < hints.len() implies 0 <= (#[trigger] hints[i]).line
        < total_lines by {
        lemma_line_in_range(references, i, markup_len, total_lines);
    }
}

/// The next resolved reference behind a resolved one, if their offsets
/// are in order, stands on no earlier line.
pub proof fn lemma_limit_above_offset(
    references: Seq<ReferenceModel>,
    index: int,
    offset: int,
    markup_len: int,
    total_lines: int,
)
    requires
        offsets_are_natural(references),
        total_lines > 0,
        markup_len > 0,
        0 <= offset,
        -1 <= index < references.len(),
        forall|later: int|
            index < later < references.len() ==> match (#[trigger] references[later]).raw_offset {
                Some(behind) => offset <= behind,
                None => true,
            },
    ensures
        proportional_line(offset, markup_len, total_lines) <= line_limit(
            references,
            index,
            markup_len,
            total_lines,
        ),
    decreases references.len() - index,
{
    lemma_proportional_in_range(offset, markup_len, total_lines);
    if index < 0 || index + 1 >= references.len() {
    } else if is_resolved(references[index + 1], markup_len) {
        lemma_proportional_grows(
            offset,
            references[index + 1].raw_offset->0,
            markup_len,
            total_lines,
        );
    } else {
        lemma_limit_above_offset(references, index + 1, offset, markup_len, total_lines);
    }
}

/// Where the known offsets are in order, no marker stands below the last
/// line that it may stand on.
pub proof fn lemma_line_below_limit(
    references: Seq<ReferenceModel>,
    index: int,
    markup_len: int,
    total_lines: int,
)
    requires
        offsets_are_natural(references),
        known_offsets_ordered(references),
        total_lines > 0,
        0 <= index < references.len(),
    ensures
        hint_line(references, index, markup_len, total_lines) <= line_limit(
            references,
            index,
            markup_len,
            total_lines,
        ),
{
    if is_resolved(references[index], markup_len) {
        lemma_limit_above_offset(
            references,
            index,
            references[index].raw_offset->0,
            markup_len,
            total_lines,
        );
    }
}

/// Where the known offsets are in order, a marker stands on no earlier
/// line than the one before it.
pub proof fn lemma_line_follows(
    references: Seq<ReferenceModel>,
    index: int,
    markup_len: int,
    total_lines: int,
)
    requires
        offsets_are_natural(references),
        known_offsets_ordered(references),
        total_lines > 0,
        0 <= index,
        index + 1 < references.len(),
    ensures
        hint_line(references, index, markup_len, total_lines) <= hint_line(
            references,
            index + 1,
            markup_len,
            total_lines,
        ),
{
    lemma_line_below_limit(references, index, markup_len, total_lines);
}

/// Where the known offsets do not go backwards, the lines do not either.
pub proof fn lemma_lines_non_decreasing(
    references: Seq<ReferenceModel>,
    markup_len: int,
    total_lines: int,
)
    requires
        offsets_are_natural(references),
        known_offsets_ordered(references),
    ensures
        lines_non_decreasing(placement(references, markup_len, total_lines)),
{
    let hints = placement(references, markup_len, total_lines);
    assert forall|i: int, j: int| 0 <= i < j < hints.len() implies (#[trigger] hints[i]).line <= (
    #[trigger] hints[j]).line by {
        lemma_lines_rise(references, i, j, markup_len, total_lines);
    }
}

/// Where the known offsets are in order, a marker stands on no earlier
/// line than any marker before it.
pub proof fn lemma_lines_rise(
    references: Seq<ReferenceModel>,
    i: int,
    j: int,
    markup_len: int,
    total_lines: int,
)
    requires
        offsets_are_natural(references),
        known_offsets_ordered(references),
        total_lines > 0,
        0 <= i <= j < references.len(),
    ensures
        hint_line(references, i, markup_len, total_lines) <= hint_line(
            references,
            j,
            markup_len,
            total_lines,
        ),
    decreases j - i,
{
    if i < j {
        lemma_lines_rise(references, i, j - 1, markup_len, total_lines);
        lemma_line_follows(references, j - 1, markup_len, total_lines);
    }
}

/// Where no reference is resolved, each marker stands on its line of the
/// even distribution.
pub proof fn lemma_unresolved_lines_are_even(
    references: Seq<ReferenceModel>,
    index: int,
    markup_len: int,
    total_lines: int,
)
    requires
        forall|i: int|
            0 <= i < references.len() ==> !is_resolved(#[trigger] references[i], markup_len),
        total_lines > 0,
        0 <= index < references.len(),
    ensures
        hint_line(references, index, markup_len, total_lines) == fallback_line(
            index,
            spacing(total_lines, unresolved_count(references, markup_len)),
            total_lines,
        ),
    decreases index,
{
    let distance = spacing(total_lines, unresolved_count(references, markup_len));
    lemma_unresolved_before_all(references, markup_len, index);
    lemma_limit_is_last_line(references, index, markup_len, total_lines);
    assert((index + 1) * distance >= 0) by (nonlinear_arith)
        requires
            index >= 0,
            distance >= 3,
    ;
    if index > 0 {
        lemma_unresolved_lines_are_even(references, index - 1, markup_len, total_lines);
        assert(index * distance <= (index + 1) * distance) by (nonlinear_arith)
            requires
                index >= 0,
                distance >= 3,
        ;
    }
}

/// Where no reference is resolved, every marker may stand as low as the last line.
pub proof fn lemma_limit_is_last_line(
    references: Seq<ReferenceModel>,
    index: int,
    markup_len: int,
    total_lines: int,
)
    requires
        forall|i: int|
            0 <= i < references.len() ==> !is_resolved(#[trigger] references[i], markup_len),
    ensures
        line_limit(references, index, markup_len, total_lines) == total_lines - 1,
    decreases references.len() - index,
{
    if !(index < 0 || index + 1 >= references.len()) {
        lemma_limit_is_last_line(references, index + 1, markup_len, total_lines);
    }
}

/// Where no reference has an offset, a marker stands at least `MIN_SPACING`
/// lines behind the one before it, unless it was held back on the last line.
pub proof fn lemma_even_markers_spaced(
    references: Seq<ReferenceModel>,
    markup_len: int,
    total_lines: int,
    i: int,
)
    requires
        none_located(references),
        total_lines > 0,
        0 <= i,
        i + 1 < references.len(),
    ensures
        ({
            let hints = placement(references, markup_len, total_lines);
            hints[i + 1].line - hints[i].line >= MIN_SPACING || hints[i + 1].line == total_lines
                - 1
        }),
{
    lemma_unresolved_lines_are_even(references, i, markup_len, total_lines);
    lemma_unresolved_lines_are_even(references, i + 1, markup_len, total_lines);
    let distance = spacing(total_lines, unresolved_count(references, markup_len));
    assert((i + 2) * distance == (i + 1) * distance + distance) by (nonlinear_arith);
}

} // verus!

//! Splitting templates that are too large for a plot.
//!
//! A template of `n` blocks takes `2n + 4` plot columns (two per code block,
//! and four spare). A function template that does not fit is cut at its last
//! block at bracket depth zero that still fits; the first half ends with a
//! call of a new hidden function, numbered after the original name, which
//! holds the rest. Templates that are not functions, and functions with
//! parameters, cannot be split.
use vstd::prelude::*;
use crate::names::{NameSet, get_next_function_name, next_name, next_number};
use crate::template::{
    Args, Block, BlockV, BracketDirection, Template, blocks_view, hidden_args, template_name,
};
use crate::text::owned;

verus! {

/// Plot columns per code block.
pub const CODE_BLOCK_SIZE: usize = 2;

/// Spare plot columns per template.
pub const SAFE_SPACE: usize = 4;

/// Whether `len` blocks fit in a plot of `max` columns.
pub open spec fn fits(len: nat, max: nat) -> bool {
    len * 2 + 4 <= max
}

/// Conditions and `else`, after which a template cannot be cut.
pub open spec fn is_condition(b: BlockV) -> bool {
    match b {
        BlockV::IfEntity { .. } | BlockV::IfGame { .. } | BlockV::IfPlayer { .. }
        | BlockV::IfVariable { .. } | BlockV::Else => true,
        _ => false,
    }
}

/// The scan for the last cut point from block `i` on, at bracket depth
/// `depth`, where `last` is the last cut point found so far. A cut point is a
/// block at depth zero that is neither a condition nor a bracket; the scan
/// stops at the first such block (at any depth) that would not fit. `None`
/// when the depth leaves the range of an `i32`.
pub open spec fn scan_scope(blocks: Seq<BlockV>, max: nat, i: int, depth: int, last: nat) -> Option<nat>
    decreases blocks.len() - i,
{
    if i < 0 || i >= blocks.len() {
        Some(last)
    } else {
        match blocks[i] {
            BlockV::Bracket { direction, .. } => {
                let d = if direction == BracketDirection::Open { depth + 1 } else { depth - 1 };
                if d > i32::MAX || d < i32::MIN {
                    None
                } else {
                    scan_scope(blocks, max, i + 1, d, last)
                }
            },
            b => if is_condition(b) {
                scan_scope(blocks, max, i + 1, depth, last)
            } else if !fits((i + 1) as nat, max) {
                Some(last)
            } else if depth == 0 {
                scan_scope(blocks, max, i + 1, depth, i as nat)
            } else {
                scan_scope(blocks, max, i + 1, depth, last)
            },
        }
    }
}

/// The last cut point of a row of blocks.
pub open spec fn last_global_scope(blocks: Seq<BlockV>, max: nat) -> Option<nat> {
    scan_scope(blocks, max, 0, 0, 0)
}

/// Whether a template starts a function whose arguments are all tags.
pub open spec fn splittable_head(blocks: Seq<BlockV>) -> bool {
    blocks.len() > 0 && match blocks[0] {
        BlockV::Function { args, .. } => forall|i: int| 0 <= i < args.len() ==> (#[trigger] args[i]).1 is Tag,
        _ => false,
    }
}

/// The name of the function a template starts.
pub open spec fn head_name(blocks: Seq<BlockV>) -> Seq<char> {
    match blocks[0] {
        BlockV::Function { name, .. } => name,
        _ => Seq::empty(),
    }
}

/// The pieces one template is split into, and the names taken afterwards.
/// `None` where the split fails: a template that does not fit and is not a
/// function with only tag arguments, a name counter that overflows, a bracket
/// depth that overflows, a size computation that overflows, or a cut point
/// before the second block, from which splitting never ends.
pub open spec fn split_piece(blocks: Seq<BlockV>, taken: Set<Seq<char>>, max: nat) -> Option<
    (Seq<Seq<BlockV>>, Set<Seq<char>>),
>
    decreases blocks.len(),
{
    if blocks.len() * 2 + 4 > usize::MAX {
        None
    } else if fits(blocks.len(), max) {
        Some((seq![blocks], taken))
    } else if !splittable_head(blocks) {
        None
    } else if next_number(head_name(blocks), taken) > usize::MAX {
        None
    } else {
        let nm = next_name(head_name(blocks), taken);
        match last_global_scope(blocks, max) {
            None => None,
            Some(s) => if s < 2 || s >= blocks.len() {
                None
            } else {
                let left = blocks.subrange(0, s as int).push(BlockV::CallFunction { args: Seq::empty(), func: nm });
                let right = seq![BlockV::Function { args: hidden_args(), name: nm }] + blocks.subrange(
                    s as int,
                    blocks.len() as int,
                );
                match split_piece(right, taken.insert(nm), max) {
                    Some((rest, t2)) => Some((seq![left] + rest, t2)),
                    None => None,
                }
            },
        }
    }
}

/// The result of splitting a stack of templates, the last one first.
pub open spec fn split_all(ts: Seq<Seq<BlockV>>, taken: Set<Seq<char>>, max: nat) -> Option<
    Seq<Seq<BlockV>>,
>
    decreases ts.len(),
{
    if ts.len() == 0 {
        Some(Seq::empty())
    } else {
        match split_piece(ts.last(), taken, max) {
            Some((pieces, t2)) => match split_all(ts.drop_last(), t2, max) {
                Some(rest) => Some(pieces + rest),
                None => None,
            },
            None => None,
        }
    }
}

/// The names of the functions the templates start.
pub open spec fn function_names(ts: Seq<Seq<BlockV>>) -> Set<Seq<char>> {
    Set::new(|s: Seq<char>| exists|i: int| 0 <= i < ts.len() && template_name(#[trigger] ts[i]) == Some(s))
}

/// The values of templates.
pub open spec fn templates_view(ts: Seq<Template>) -> Seq<Seq<BlockV>> {
    ts.map_values(|t: Template| t@)
}

/// The split of a list of templates for a plot of `max` columns.
pub open spec fn spec_split_templates(ts: Seq<Seq<BlockV>>, max: nat) -> Option<Seq<Seq<BlockV>>> {
    split_all(ts, function_names(ts), max)
}

/// `r` followed by the pieces of a split that may fail.
pub open spec fn then_pieces(r: Seq<Seq<BlockV>>, x: Option<Seq<Seq<BlockV>>>) -> Option<Seq<Seq<BlockV>>> {
    match x {
        Some(p) => Some(r + p),
        None => None,
    }
}

/// The split of `cur` followed by the split of the stack below it.
pub open spec fn piece_then_stack(
    cur: Seq<BlockV>,
    stack: Seq<Seq<BlockV>>,
    taken: Set<Seq<char>>,
    max: nat,
) -> Option<Seq<Seq<BlockV>>> {
    match split_piece(cur, taken, max) {
        Some((pieces, t2)) => match split_all(stack, t2, max) {
            Some(rest) => Some(pieces + rest),
            None => None,
        },
        None => None,
    }
}

/// The last cut point of `blocks` (see [`last_global_scope`]); `None` when
/// the bracket depth leaves the range of an `i32`.
fn find_last_global_scope(blocks: &Vec<Block>, max_size: usize) -> (r: Option<usize>)
    requires
        blocks@.len() * 2 + 4 <= usize::MAX,
    ensures
        match r {
            Some(s) => last_global_scope(blocks_view(blocks@), max_size as nat) == Some(s as nat)
                && (s < blocks@.len() || s == 0),
            None => last_global_scope(blocks_view(blocks@), max_size as nat) is None,
        },
{
    let ghost bv = blocks_view(blocks@);
    let mut depth: i64 = 0;
    let mut last: usize = 0;
    let mut i: usize = 0;
    while i < blocks.len()
        invariant
            bv == blocks_view(blocks@),
            blocks@.len() * 2 + 4 <= usize::MAX,
            i <= blocks.len(),
            i32::MIN <= depth <= i32::MAX,
            last < blocks@.len() || last == 0,
            last_global_scope(bv, max_size as nat) == scan_scope(bv, max_size as nat, i as int, depth as int, last as nat),
        decreases blocks.len() - i,
    {
        let ghost bi = bv[i as int];
        assert(bi == blocks@[i as int]@);
        match &blocks[i] {
            Block::IfEntity { .. } | Block::IfGame { .. } | Block::IfPlayer { .. } | Block::IfVariable { .. }
            | Block::Else => {},
            Block::Bracket { direction, .. } => {
                match direction {
                    BracketDirection::Open => {
                        if depth == i32::MAX as i64 {
                            return None;
                        }
                        depth = depth + 1;
                    },
                    BracketDirection::Close => {
                        if depth == i32::MIN as i64 {
                            return None;
                        }
                        depth = depth - 1;
                    },
                }
            },
            _ => {
                if (i + 1) * CODE_BLOCK_SIZE + SAFE_SPACE > max_size {
                    return Some(last);
                } else if depth == 0 {
                    last = i;
                }
            },
        }
        i = i + 1;
    }
    Some(last)
}

/// Moves the elements of `vec` from index `at` on to the end of `target`.
pub fn split_into_existing<T>(vec: &mut Vec<T>, at: usize, target: &mut Vec<T>)
    requires
        at <= old(vec)@.len(),
    ensures
        final(vec)@ == old(vec)@.subrange(0, at as int),
        final(target)@ == old(target)@ + old(vec)@.subrange(at as int, old(vec)@.len() as int),
{
    let mut tail = vec.split_off(at);
    target.append(&mut tail);
}

/// Whether a template starts a function whose arguments are all tags.
fn has_splittable_head(blocks: &Vec<Block>) -> (r: bool)
    ensures
        r == splittable_head(blocks_view(blocks@)),
{
    if blocks.len() == 0 {
        return false;
    }
    assert(blocks_view(blocks@)[0] == blocks@[0]@);
    match &blocks[0] {
        Block::Function { args, name } => {
            assert(blocks_view(blocks@)[0] == BlockV::Function { args: args@, name: name@ });
            let mut i: usize = 0;
            while i < args.0.len()
                invariant
                    i <= args.0.len(),
                    blocks@.len() > 0,
                    blocks_view(blocks@)[0] == (BlockV::Function { args: args@, name: name@ }),
                    forall|j: int| 0 <= j < i ==> (#[trigger] args@[j]).1 is Tag,
                decreases args.0.len() - i,
            {
                assert(args@[i as int].1 == args.0@[i as int].1@);
                match &args.0[i].1 {
                    crate::template::Item::Tag { .. } => {},
                    _ => {
                        let ghost av = args@;
                        assert(!(av[i as int].1 is Tag));
                        assert(splittable_head(blocks_view(blocks@)) ==> (forall|j: int|
                            0 <= j < av.len() ==> (#[trigger] av[j]).1 is Tag));
                        assert(!splittable_head(blocks_view(blocks@)));
                        return false;
                    },
                }
                i = i + 1;
            }
            true
        },
        _ => false,
    }
}

/// Splits every template that does not fit in a plot of `max_size` columns
/// (see [`split_piece`]), or returns `None` where the split fails.
pub fn try_split_templates(templates: Vec<Template>, max_size: usize) -> (r: Option<Vec<Template>>)
    ensures
        match r {
            Some(v) => spec_split_templates(templates_view(templates@), max_size as nat) == Some(
                templates_view(v@),
            ),
            None => spec_split_templates(templates_view(templates@), max_size as nat) is None,
        },
{
    let ghost orig = templates_view(templates@);
    let ghost max = max_size as nat;
    let mut names = NameSet::new();
    let mut k: usize = 0;
    while k < templates.len()
        invariant
            k <= templates.len(),
            orig == templates_view(templates@),
            names@ == Set::new(
                |s: Seq<char>| exists|i: int| 0 <= i < k && template_name(#[trigger] orig[i]) == Some(s),
            ),
        decreases templates.len() - k,
    {
        let ghost before = names@;
        let nm = templates[k].get_name();
        assert(orig[k as int] == templates@[k as int]@);
        match nm {
            Some(n) => {
                names.insert(n);
            },
            None => {},
        }
        k = k + 1;
        assert(names@ =~= Set::new(
            |s: Seq<char>| exists|i: int| 0 <= i < k && template_name(#[trigger] orig[i]) == Some(s),
        )) by {
            assert forall|s: Seq<char>|
                names@.contains(s) implies exists|i: int| 0 <= i < k && template_name(#[trigger] orig[i]) == Some(s) by {
                if !before.contains(s) {
                    assert(template_name(orig[k - 1]) == Some(s));
                }
            }
        }
    }
    assert(names@ =~= function_names(orig));
    let mut stack = templates;
    let mut result: Vec<Template> = Vec::new();
    while stack.len() > 0
        invariant
            split_all(orig, function_names(orig), max) == then_pieces(
                templates_view(result@),
                split_all(templates_view(stack@), names@, max),
            ),
            max == max_size,
            orig == templates_view(templates@),
        decreases stack.len(),
    {
        let ghost sv = templates_view(stack@);
        let cur0 = stack.pop().unwrap();
        assert(templates_view(stack@) =~= sv.drop_last());
        let mut cur = cur0;
        proof {
            names.lemma_finite();
        }
        loop
            invariant_except_break
                split_all(orig, function_names(orig), max) == then_pieces(
                    templates_view(result@),
                    piece_then_stack(cur@, templates_view(stack@), names@, max),
                ),
            invariant
                max == max_size,
                names@.finite(),
                orig == templates_view(templates@),
            ensures
                split_all(orig, function_names(orig), max) == then_pieces(
                    templates_view(result@),
                    split_all(templates_view(stack@), names@, max),
                ),
            decreases cur@.len(),
        {
            let ghost cv = cur@;
            let ghost rv = templates_view(result@);
            assert(cv.len() == cur.blocks@.len());
            if cur.blocks.len() > (usize::MAX - SAFE_SPACE) / CODE_BLOCK_SIZE {
                assert(split_piece(cv, names@, max) is None);
                return None;
            }
            if cur.blocks.len() * CODE_BLOCK_SIZE + SAFE_SPACE <= max_size {
                result.push(cur);
                assert(templates_view(result@) =~= rv.push(cv));
                assert(then_pieces(rv, piece_then_stack(cv, templates_view(stack@), names@, max))
                    == then_pieces(templates_view(result@), split_all(templates_view(stack@), names@, max))) by {
                    assert(rv + (seq![cv] + split_all(templates_view(stack@), names@, max).unwrap_or(Seq::empty()))
                        =~= rv.push(cv) + split_all(templates_view(stack@), names@, max).unwrap_or(Seq::empty()));
                }
                break;
            }
            if !has_splittable_head(&cur.blocks) {
                assert(split_piece(cv, names@, max) is None);
                return None;
            }
            assert(cv[0] == cur.blocks@[0]@);
            let name = match &cur.blocks[0] {
                Block::Function { name, .. } => name.clone(),
                _ => {
                    assert(false);
                    return None;
                },
            };
            assert(name@ == head_name(cv));
            let ghost taken = names@;
            let new_name = match get_next_function_name(name.as_str(), &mut names) {
                Some(n) => n,
                None => {
                    return None;
                },
            };
            let s = match find_last_global_scope(&cur.blocks, max_size) {
                Some(s) => s,
                None => {
                    return None;
                },
            };
            if s < 2 || s >= cur.blocks.len() {
                return None;
            }
            let mut right = Template::start_function_hidden(new_name.as_str());
            let ghost rhead = right.blocks@;
            split_into_existing(&mut cur.blocks, s, &mut right.blocks);
            cur.blocks.push(Block::CallFunction { args: Args::default(), func: owned(new_name.as_str()) });
            proof {
                let left = cv.subrange(0, s as int).push(BlockV::CallFunction { args: Seq::empty(), func: new_name@ });
                assert(cur@ =~= left);
                let rt = seq![BlockV::Function { args: hidden_args(), name: new_name@ }] + cv.subrange(
                    s as int,
                    cv.len() as int,
                );
                assert(right@ =~= rt);
                names.lemma_finite();
            }
            result.push(cur);
            assert(templates_view(result@) =~= rv.push(cur@));
            proof {
                let rest = piece_then_stack(right@, templates_view(stack@), names@, max);
                assert(piece_then_stack(cv, templates_view(stack@), taken, max) == match rest {
                    Some(x) => Some(seq![cur@] + x),
                    None => None,
                }) by {
                    match split_piece(right@, names@, max) {
                        Some((p, t2)) => {
                            assert(seq![cur@] + p + split_all(templates_view(stack@), t2, max).unwrap_or(Seq::empty())
                                =~= seq![cur@] + (p + split_all(templates_view(stack@), t2, max).unwrap_or(Seq::empty())));
                        },
                        None => {},
                    }
                }
                match rest {
                    Some(x) => {
                        assert(rv + (seq![cur@] + x) =~= rv.push(cur@) + x);
                    },
                    None => {},
                }
            }
            cur = right;
        }
    }
    assert(templates_view(stack@) =~= Seq::<Seq<BlockV>>::empty());
    assert(templates_view(result@) + Seq::<Seq<BlockV>>::empty() =~= templates_view(result@));
    Some(result)
}

/// Splits every template that does not fit in a plot of `max_size` columns:
/// see [`split_piece`] for how one template is cut, and [`split_all`] for the
/// order of the result.
pub fn split_templates(templates: Vec<Template>, max_size: usize) -> (r: Vec<Template>)
    requires
        spec_split_templates(templates_view(templates@), max_size as nat) is Some,
    ensures
        spec_split_templates(templates_view(templates@), max_size as nat) == Some(templates_view(r@)),
{
    match try_split_templates(templates, max_size) {
        Some(v) => v,
        None => {
            assert(false);
            Vec::new()
        },
    }
}


/// The scan returns the cut point it started with or a cut point whose
/// block fits.
proof fn lemma_scan_fits(blocks: Seq<BlockV>, max: nat, i: int, depth: int, last: nat)
    requires
        scan_scope(blocks, max, i, depth, last) is Some,
    ensures
        ({
            let r = scan_scope(blocks, max, i, depth, last).unwrap();
            r == last || (fits(r + 1, max) && r < blocks.len())
        }),
    decreases blocks.len() - i,
{
    if 0 <= i < blocks.len() {
        match blocks[i] {
            BlockV::Bracket { direction, .. } => {
                let d = if direction == BracketDirection::Open { depth + 1 } else { depth - 1 };
                lemma_scan_fits(blocks, max, i + 1, d, last);
            },
            b => if is_condition(b) {
                lemma_scan_fits(blocks, max, i + 1, depth, last);
            } else if !fits((i + 1) as nat, max) {
            } else if depth == 0 {
                lemma_scan_fits(blocks, max, i + 1, depth, i as nat);
            } else {
                lemma_scan_fits(blocks, max, i + 1, depth, last);
            },
        }
    }
}

/// Every piece of a split template fits.
proof fn lemma_piece_fits(blocks: Seq<BlockV>, taken: Set<Seq<char>>, max: nat)
    requires
        split_piece(blocks, taken, max) is Some,
    ensures
        forall|k: int|
            0 <= k < split_piece(blocks, taken, max).unwrap().0.len() ==> fits(
                #[trigger] split_piece(blocks, taken, max).unwrap().0[k].len(),
                max,
            ),
    decreases blocks.len(),
{
    if blocks.len() * 2 + 4 > usize::MAX {
    } else if fits(blocks.len(), max) {
    } else {
        let nm = next_name(head_name(blocks), taken);
        let s = last_global_scope(blocks, max).unwrap();
        lemma_scan_fits(blocks, max, 0, 0, 0);
        let left = blocks.subrange(0, s as int).push(BlockV::CallFunction { args: Seq::empty(), func: nm });
        let right = seq![BlockV::Function { args: hidden_args(), name: nm }] + blocks.subrange(s as int, blocks.len() as int);
        lemma_piece_fits(right, taken.insert(nm), max);
        let rest = split_piece(right, taken.insert(nm), max).unwrap().0;
        let pieces = split_piece(blocks, taken, max).unwrap().0;
        assert(pieces == seq![left] + rest);
        assert forall|k: int| 0 <= k < pieces.len() implies fits(#[trigger] pieces[k].len(), max) by {
            if k > 0 {
                assert(pieces[k] == rest[k - 1]);
            }
        }
    }
}

/// Every template of a split stack fits.
proof fn lemma_all_fits(ts: Seq<Seq<BlockV>>, taken: Set<Seq<char>>, max: nat)
    requires
        split_all(ts, taken, max) is Some,
    ensures
        forall|k: int|
            0 <= k < split_all(ts, taken, max).unwrap().len() ==> fits(#[trigger] split_all(ts, taken, max).unwrap()[k].len(), max),
    decreases ts.len(),
{
    if ts.len() > 0 {
        let (pieces, t2) = split_piece(ts.last(), taken, max).unwrap();
        lemma_piece_fits(ts.last(), taken, max);
        lemma_all_fits(ts.drop_last(), t2, max);
        let rest = split_all(ts.drop_last(), t2, max).unwrap();
        let out = split_all(ts, taken, max).unwrap();
        assert(out == pieces + rest);
        assert forall|k: int| 0 <= k < out.len() implies fits(#[trigger] out[k].len(), max) by {
            if k < pieces.len() {
                assert(out[k] == pieces[k]);
            } else {
                assert(out[k] == rest[k - pieces.len()]);
            }
        }
    }
}

/// Every template that splitting gives fits the plot: it takes at most `max`
/// columns.
pub proof fn lemma_split_templates_fit(ts: Seq<Seq<BlockV>>, max: nat)
    requires
        spec_split_templates(ts, max) is Some,
    ensures
        forall|k: int|
            0 <= k < spec_split_templates(ts, max).unwrap().len() ==> #[trigger] spec_split_templates(
                ts,
                max,
            ).unwrap()[k].len() * 2 + 4 <= max,
{
    lemma_all_fits(ts, function_names(ts), max);
}

/// A stack of templates that all fit comes out whole, last first.
proof fn lemma_all_fitting(ts: Seq<Seq<BlockV>>, taken: Set<Seq<char>>, max: nat)
    requires
        max <= usize::MAX,
        forall|k: int| 0 <= k < ts.len() ==> fits(#[trigger] ts[k].len(), max),
    ensures
        split_all(ts, taken, max) == Some(ts.reverse()),
    decreases ts.len(),
{
    if ts.len() > 0 {
        assert(fits(ts.last().len(), max));
        let rest = ts.drop_last();
        lemma_all_fitting(rest, taken, max);
        assert(seq![ts.last()] + rest.reverse() =~= ts.reverse());
    } else {
        assert(ts.reverse() =~= Seq::<Seq<BlockV>>::empty());
    }
}

/// Templates that all fit the plot are left as they are; they come out in
/// the reverse order, as the stack they are split from gives them.
pub proof fn lemma_split_fitting_templates(ts: Seq<Seq<BlockV>>, max: nat)
    requires
        max <= usize::MAX,
        forall|k: int| 0 <= k < ts.len() ==> #[trigger] ts[k].len() * 2 + 4 <= max,
    ensures
        spec_split_templates(ts, max) == Some(ts.reverse()),
{
    assert forall|k: int| 0 <= k < ts.len() implies fits(#[trigger] ts[k].len(), max) by {
        assert(ts[k].len() * 2 + 4 <= max);
    }
    lemma_all_fitting(ts, function_names(ts), max);
}

/// The name of the function that piece `k` starts.
pub open spec fn piece_name(pieces: Seq<Seq<BlockV>>, k: int) -> Seq<char> {
    head_name(pieces[k])
}

/// Whether piece `k` starts a hidden function.
pub open spec fn starts_hidden(pieces: Seq<Seq<BlockV>>, k: int) -> bool {
    pieces[k].len() > 0 && pieces[k][0] == (BlockV::Function { args: hidden_args(), name: piece_name(pieces, k) })
}

/// Whether piece `k` ends by calling the function of piece `k + 1`.
pub open spec fn calls_next(pieces: Seq<Seq<BlockV>>, k: int) -> bool {
    pieces[k].len() > 0 && pieces[k].last() == (BlockV::CallFunction {
        args: Seq::empty(),
        func: piece_name(pieces, k + 1),
    })
}

/// Whether `pieces` chain: every piece but the first starts a hidden function,
/// and every piece but the last ends by calling the function of the next.
pub open spec fn is_chain(pieces: Seq<Seq<BlockV>>) -> bool {
    &&& forall|k: int| 0 < k < pieces.len() ==> #[trigger] starts_hidden(pieces, k)
    &&& forall|k: int| 0 <= k < pieces.len() - 1 ==> #[trigger] calls_next(pieces, k)
}

/// Whether the names of the functions that the pieces after the first start
/// are new: none was taken in `before`, all are taken in `after`, and no two
/// are the same.
pub open spec fn fresh_names(pieces: Seq<Seq<BlockV>>, before: Set<Seq<char>>, after: Set<Seq<char>>) -> bool {
    &&& forall|k: int|
        0 < k < pieces.len() ==> !before.contains(#[trigger] piece_name(pieces, k)) && after.contains(
            piece_name(pieces, k),
        )
    &&& forall|k: int, l: int|
        0 < k < l < pieces.len() ==> #[trigger] piece_name(pieces, k) != #[trigger] piece_name(pieces, l)
}

/// Putting a piece that ends by calling `nm` before a chain that starts the
/// hidden function `nm` with a new name gives a chain with new names.
#[verifier::spinoff_prover]
proof fn lemma_chain_step(
    left: Seq<BlockV>,
    rest: Seq<Seq<BlockV>>,
    nm: Seq<char>,
    taken: Set<Seq<char>>,
    after: Set<Seq<char>>,
)
    requires
        left.len() > 0,
        left.last() == (BlockV::CallFunction { args: Seq::empty(), func: nm }),
        rest.len() > 0,
        piece_name(rest, 0) == nm,
        starts_hidden(rest, 0),
        is_chain(rest),
        fresh_names(rest, taken.insert(nm), after),
        taken.insert(nm).subset_of(after),
        !taken.contains(nm),
    ensures
        is_chain(seq![left] + rest),
        fresh_names(seq![left] + rest, taken, after),
{
    let pieces = seq![left] + rest;
    let taken2 = taken.insert(nm);
    assert forall|k: int| 0 < k < pieces.len() implies piece_name(pieces, k) == piece_name(rest, k - 1) by {
        assert(pieces[k] == rest[k - 1]);
    }
    assert forall|k: int| 0 < k < pieces.len() implies #[trigger] starts_hidden(pieces, k) by {
        assert(pieces[k] == rest[k - 1]);
        assert(starts_hidden(rest, k - 1));
    }
    assert forall|k: int| 0 <= k < pieces.len() - 1 implies #[trigger] calls_next(pieces, k) by {
        assert(pieces[k + 1] == rest[k]);
        if k > 0 {
            assert(pieces[k] == rest[k - 1]);
            assert(calls_next(rest, k - 1));
        } else {
            assert(pieces[0] == left);
        }
    }
    assert forall|k: int| 0 < k < pieces.len() implies !taken.contains(#[trigger] piece_name(pieces, k)) && after.contains(
        piece_name(pieces, k),
    ) by {
        assert(piece_name(pieces, k) == piece_name(rest, k - 1));
        if k > 1 {
            assert(!taken2.contains(piece_name(rest, k - 1)));
        } else {
            assert(taken2.contains(nm));
        }
    }
    assert forall|k: int, l: int| 0 < k < l < pieces.len() implies #[trigger] piece_name(pieces, k) != #[trigger] piece_name(
        pieces,
        l,
    ) by {
        assert(piece_name(pieces, k) == piece_name(rest, k - 1));
        assert(piece_name(pieces, l) == piece_name(rest, l - 1));
        assert(!taken2.contains(piece_name(rest, l - 1)));
        if k > 1 {
            assert(piece_name(rest, k - 1) != piece_name(rest, l - 1));
        }
    }
}

/// A template that does not fit is split into a chain of templates that do:
/// the first keeps the template's head; each later one is a hidden function
/// whose name is new (taken by no function before and by no other piece); and
/// each but the last ends by calling the next. The names taken afterwards are
/// those taken before and the new ones.
#[verifier::spinoff_prover]
pub proof fn lemma_split_chain(blocks: Seq<BlockV>, taken: Set<Seq<char>>, max: nat)
    requires
        taken.finite(),
        split_piece(blocks, taken, max) is Some,
    ensures
        ({
            let (pieces, after) = split_piece(blocks, taken, max).unwrap();
            &&& pieces.len() > 0
            &&& blocks.len() > 0 ==> pieces[0].len() > 0 && pieces[0][0] == blocks[0]
            &&& forall|k: int| 0 <= k < pieces.len() ==> fits(#[trigger] pieces[k].len(), max)
            &&& is_chain(pieces)
            &&& fresh_names(pieces, taken, after)
            &&& taken.subset_of(after)
            &&& after.finite()
        }),
    decreases blocks.len(),
{
    lemma_piece_fits(blocks, taken, max);
    if blocks.len() * 2 + 4 > usize::MAX {
    } else if fits(blocks.len(), max) {
        let pieces = seq![blocks];
        assert(is_chain(pieces));
        assert(fresh_names(pieces, taken, taken));
    } else {
        let head = head_name(blocks);
        let nm = next_name(head, taken);
        let (prefix, n) = crate::names::split_suffix(head);
        crate::names::lemma_next_free_exists(prefix, n, taken);
        let s = last_global_scope(blocks, max).unwrap();
        let left = blocks.subrange(0, s as int).push(BlockV::CallFunction { args: Seq::empty(), func: nm });
        let right = seq![BlockV::Function { args: hidden_args(), name: nm }] + blocks.subrange(s as int, blocks.len() as int);
        let taken2 = taken.insert(nm);
        lemma_split_chain(right, taken2, max);
        let (rest, after) = split_piece(right, taken2, max).unwrap();
        assert(split_piece(blocks, taken, max) == Some((seq![left] + rest, after)));
        assert(rest[0][0] == right[0]);
        assert(piece_name(rest, 0) == nm);
        assert(starts_hidden(rest, 0));
        lemma_chain_step(left, rest, nm, taken, after);
        assert((seq![left] + rest)[0] == left);
    }
}

} // verus!

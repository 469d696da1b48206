use vstd::prelude::*;

verus! {

/// A step as a project file holds it: the save name of its filter and the settings
/// text of the filter, where it has settings.
#[derive(Clone, Debug)]
pub struct SavedStep {
    pub name: Vec<u8>,
    pub params: Option<Vec<u8>>,
}

/// The bytes of a step's settings, nothing where it has none.
pub open spec fn params_or_empty(params: Option<Vec<u8>>) -> Seq<u8> {
    match params {
        Some(p) => p@,
        None => Seq::<u8>::empty(),
    }
}

/// The text of one step: its name, a line break, its settings, a line break.
pub open spec fn step_text(step: SavedStep) -> Seq<u8> {
    step.name@ + seq![10u8] + params_or_empty(step.params) + seq![10u8]
}

/// The text of a project: the texts of its steps, one after the other, each after
/// the first preceded by the separator `||` and a line break.
pub open spec fn project_text(steps: Seq<SavedStep>) -> Seq<u8>
    decreases steps.len(),
{
    if steps.len() == 0 {
        Seq::<u8>::empty()
    } else if steps.len() == 1 {
        step_text(steps[0])
    } else {
        project_text(steps.drop_last()) + seq![124u8, 124u8, 10u8] + step_text(steps.last())
    }
}

/// The pieces of a text between the separators `||`, read from the left as
/// `str::split` reads them: one more piece than there are separators.
pub open spec fn blocks(s: Seq<u8>) -> Seq<Seq<u8>>
    decreases s.len(),
{
    if s.len() < 2 {
        seq![s]
    } else if s[0] == 124u8 && s[1] == 124u8 {
        seq![Seq::<u8>::empty()] + blocks(s.skip(2))
    } else {
        let rest = blocks(s.skip(1));
        rest.update(0, seq![s[0]] + rest[0])
    }
}

/// A block read back into a step: a line break at its start is dropped, the name
/// runs to the first line break, the settings are what follows it with one line
/// break at the end dropped.
pub open spec fn block_step(block: Seq<u8>) -> (Seq<u8>, Seq<u8>) {
    let b = if block.len() > 0 && block[0] == 10u8 {
        block.skip(1)
    } else {
        block
    };
    let cut = first_newline(b);
    if cut == b.len() {
        (b, Seq::<u8>::empty())
    } else {
        let rest = b.skip(cut + 1);
        let content = if rest.len() > 0 && rest.last() == 10u8 {
            rest.drop_last()
        } else {
            rest
        };
        (b.take(cut), content)
    }
}

/// The place of the first line break, or the length where there is none.
pub open spec fn first_newline(s: Seq<u8>) -> int
    decreases s.len(),
{
    if s.len() == 0 {
        0
    } else if s[0] == 10u8 {
        0
    } else {
        1 + first_newline(s.skip(1))
    }
}

/// The steps a project text holds: one per block.
pub open spec fn project_steps(text: Seq<u8>) -> Seq<(Seq<u8>, Seq<u8>)> {
    blocks(text).map_values(|b: Seq<u8>| block_step(b))
}

/// The text of a project, as `project_text` says.
pub fn project_to_bytes(steps: &Vec<SavedStep>) -> (r: Vec<u8>)
    ensures
        r@ == project_text(steps@),
{
    let mut out: Vec<u8> = Vec::new();
    let mut i: usize = 0;
    while i < steps.len()
        invariant
            i <= steps@.len(),
            out@ == project_text(steps@.take(i as int)),
        decreases steps@.len() - i,
    {
        let ghost before = out@;
        if i > 0 {
            out.push(124u8);
            out.push(124u8);
            out.push(10u8);
        }
        append(&mut out, steps[i].name.as_slice());
        out.push(10u8);
        match &steps[i].params {
            Some(p) => append(&mut out, p.as_slice()),
            None => {},
        }
        out.push(10u8);
        proof {
            let next = steps@.take(i + 1);
            assert(next.drop_last() =~= steps@.take(i as int));
            assert(next.last() == steps@[i as int]);
            if i == 0 {
                assert(out@ =~= step_text(steps@[0]));
            } else {
                assert(out@ =~= before + seq![124u8, 124u8, 10u8] + step_text(steps@[i as int]));
            }
        }
        i = i + 1;
    }
    proof {
        assert(steps@.take(steps@.len() as int) =~= steps@);
    }
    out
}

fn append(out: &mut Vec<u8>, tail: &[u8])
    ensures
        final(out)@ == old(out)@ + tail@,
{
    let mut i: usize = 0;
    while i < tail.len()
        invariant
            i <= tail@.len(),
            out@ == old(out)@ + tail@.take(i as int),
        decreases tail@.len() - i,
    {
        out.push(tail[i]);
        proof {
            assert(tail@.take(i + 1) =~= tail@.take(i as int).push(tail@[i as int]));
        }
        i = i + 1;
    }
    proof {
        assert(tail@.take(tail@.len() as int) =~= tail@);
    }
}

/// The first piece of `bl` with `prefix` put in front of it.
pub open spec fn join_front(prefix: Seq<u8>, bl: Seq<Seq<u8>>) -> Seq<Seq<u8>> {
    bl.update(0, prefix + bl[0])
}

proof fn lemma_blocks_nonempty(s: Seq<u8>)
    ensures
        blocks(s).len() >= 1,
    decreases s.len(),
{
    if s.len() >= 2 {
        if s[0] == 124u8 && s[1] == 124u8 {
            lemma_blocks_nonempty(s.skip(2));
        } else {
            lemma_blocks_nonempty(s.skip(1));
        }
    }
}

/// The views of the pieces found so far.
pub open spec fn piece_views(v: Seq<Vec<u8>>) -> Seq<Seq<u8>> {
    v.map_values(|x: Vec<u8>| x@)
}

/// Splits a text at each separator `||`, as `blocks` says.
pub fn split_blocks(text: &[u8]) -> (r: Vec<Vec<u8>>)
    ensures
        piece_views(r@) == blocks(text@),
{
    let mut out: Vec<Vec<u8>> = Vec::new();
    let mut cur: Vec<u8> = Vec::new();
    let mut i: usize = 0;
    let n = text.len();
    proof {
        lemma_blocks_nonempty(text@);
        assert(text@.skip(0) =~= text@);
        assert(join_front(cur@, blocks(text@)) =~= blocks(text@));
        assert(piece_views(out@) =~= Seq::<Seq<u8>>::empty());
        assert(blocks(text@) =~= piece_views(out@) + join_front(cur@, blocks(text@.skip(0))));
    }
    while i < n
        invariant
            n == text@.len(),
            i <= n,
            blocks(text@) == piece_views(out@) + join_front(cur@, blocks(text@.skip(i as int))),
        decreases n - i,
    {
        let ghost rest = text@.skip(i as int);
        proof {
            lemma_blocks_nonempty(rest);
        }
        if i + 1 < n && text[i] == 124u8 && text[i + 1] == 124u8 {
            proof {
                assert(rest[0] == 124u8 && rest[1] == 124u8);
                assert(rest.skip(2) =~= text@.skip(i + 2));
                lemma_blocks_nonempty(text@.skip(i + 2));
                let bl = blocks(text@.skip(i + 2));
                assert(join_front(cur@, blocks(rest)) =~= seq![cur@] + bl);
                assert(join_front(Seq::<u8>::empty(), bl) =~= bl);
            }
            let ghost old_out = out@;
            out.push(cur);
            cur = Vec::new();
            proof {
                assert(piece_views(out@) =~= piece_views(old_out).push(out@.last()@));
                assert(piece_views(out@) + join_front(cur@, blocks(text@.skip(i + 2))) =~= piece_views(
                    old_out,
                ) + (seq![out@.last()@] + blocks(text@.skip(i + 2))));
            }
            i = i + 2;
        } else {
            let c = text[i];
            proof {
                assert(rest[0] == c);
                assert(rest.skip(1) =~= text@.skip(i + 1));
                lemma_blocks_nonempty(text@.skip(i + 1));
                if rest.len() < 2 {
                    assert(text@.skip(i + 1) =~= Seq::<u8>::empty());
                    assert(rest =~= seq![c]);
                    assert(blocks(rest) == seq![rest]);
                    assert(blocks(text@.skip(i + 1)) == seq![Seq::<u8>::empty()]);
                    assert(cur@ + seq![c] =~= cur@.push(c) + Seq::<u8>::empty());
                    assert(join_front(cur@, blocks(rest)) =~= join_front(cur@.push(c), blocks(text@.skip(i + 1))));
                } else {
                    assert(rest[1] == text@[i + 1]);
                    let bl = blocks(text@.skip(i + 1));
                    assert(blocks(rest) == bl.update(0, seq![c] + bl[0]));
                    assert(cur@ + (seq![c] + bl[0]) =~= cur@.push(c) + bl[0]);
                    assert(join_front(cur@, blocks(rest)) =~= join_front(cur@.push(c), bl));
                }
            }
            cur.push(c);
            i = i + 1;
        }
    }
    proof {
        assert(text@.skip(n as int) =~= Seq::<u8>::empty());
        assert(join_front(cur@, blocks(text@.skip(n as int))) =~= seq![cur@]);
    }
    let ghost old_out = out@;
    out.push(cur);
    proof {
        assert(piece_views(out@) =~= piece_views(old_out).push(out@.last()@));
    }
    out
}

proof fn lemma_first_newline(s: Seq<u8>, i: int)
    requires
        0 <= i <= s.len(),
        forall|j: int| 0 <= j < i ==> s[j] != 10u8,
        i == s.len() || s[i] == 10u8,
    ensures
        first_newline(s) == i,
    decreases i,
{
    if i > 0 {
        lemma_first_newline(s.skip(1), i - 1);
    }
}

fn copy_range(s: &[u8], from: usize, to: usize) -> (r: Vec<u8>)
    requires
        from <= to <= s@.len(),
    ensures
        r@ == s@.subrange(from as int, to as int),
{
    let mut out: Vec<u8> = Vec::new();
    let mut i: usize = from;
    while i < to
        invariant
            from <= i <= to,
            to <= s@.len(),
            out@ == s@.subrange(from as int, i as int),
        decreases to - i,
    {
        out.push(s[i]);
        proof {
            assert(s@.subrange(from as int, i + 1) =~= s@.subrange(from as int, i as int).push(s@[i as int]));
        }
        i = i + 1;
    }
    out
}

/// Reads one block back into a name and a settings text, as `block_step` says.
pub fn read_block(block: &[u8]) -> (r: (Vec<u8>, Vec<u8>))
    ensures
        (r.0@, r.1@) == block_step(block@),
{
    let start: usize = if block.len() > 0 && block[0] == 10u8 {
        1
    } else {
        0
    };
    let ghost b = if block@.len() > 0 && block@[0] == 10u8 {
        block@.skip(1)
    } else {
        block@
    };
    proof {
        assert(b =~= block@.subrange(start as int, block@.len() as int));
    }
    let mut cut: usize = start;
    while cut < block.len() && block[cut] != 10u8
        invariant
            start <= cut <= block@.len(),
            forall|j: int| start <= j < cut ==> block@[j] != 10u8,
        decreases block@.len() - cut,
    {
        cut = cut + 1;
    }
    proof {
        lemma_first_newline(b, cut - start);
    }
    let name = copy_range(block, start, cut);
    if cut == block.len() {
        proof {
            assert(name@ =~= b);
        }
        return (name, Vec::new());
    }
    let mut end = block.len();
    if end > cut + 1 && block[end - 1] == 10u8 {
        end = end - 1;
    }
    let content = copy_range(block, cut + 1, end);
    proof {
        let rest = b.skip(cut - start + 1);
        assert(rest =~= block@.subrange(cut + 1, block@.len() as int));
        assert(name@ =~= b.take(cut - start));
        if rest.len() > 0 && rest.last() == 10u8 {
            assert(content@ =~= rest.drop_last());
        } else {
            assert(content@ =~= rest);
        }
    }
    (name, content)
}

/// The steps a project text holds, as `project_steps` says.
pub fn split_project(text: &[u8]) -> (r: Vec<(Vec<u8>, Vec<u8>)>)
    ensures
        r@.len() == project_steps(text@).len(),
        forall|i: int|
            0 <= i < r@.len() ==> (#[trigger] r@[i].0@, r@[i].1@) == project_steps(text@)[i],
{
    let pieces = split_blocks(text);
    let mut out: Vec<(Vec<u8>, Vec<u8>)> = Vec::new();
    let mut i: usize = 0;
    while i < pieces.len()
        invariant
            i <= pieces@.len(),
            piece_views(pieces@) == blocks(text@),
            out@.len() == i,
            forall|k: int|
                0 <= k < i ==> (#[trigger] out@[k].0@, out@[k].1@) == block_step(blocks(text@)[k]),
        decreases pieces@.len() - i,
    {
        proof {
            assert(piece_views(pieces@)[i as int] == pieces@[i as int]@);
        }
        let step = read_block(pieces[i].as_slice());
        out.push(step);
        i = i + 1;
    }
    out
}

proof fn lemma_blocks_no_sep(s: Seq<u8>)
    requires
        forall|i: int| 0 <= i < s.len() ==> s[i] != 124u8,
    ensures
        blocks(s) == seq![s],
    decreases s.len(),
{
    if s.len() >= 2 {
        lemma_blocks_no_sep(s.skip(1));
        assert(seq![s[0]] + s.skip(1) =~= s);
        assert(seq![s.skip(1)].update(0, seq![s[0]] + s.skip(1)) =~= seq![s]);
    }
}

proof fn lemma_blocks_concat(x: Seq<u8>, y: Seq<u8>)
    requires
        x.len() == 0 || x.last() != 124u8,
    ensures
        blocks(x + seq![124u8, 124u8] + y) == blocks(x) + blocks(y),
    decreases x.len(),
{
    let s = x + seq![124u8, 124u8] + y;
    lemma_blocks_nonempty(y);
    if x.len() == 0 {
        assert(s.skip(2) =~= y);
        assert(x =~= Seq::<u8>::empty());
        assert(blocks(x) == seq![Seq::<u8>::empty()]);
        assert(blocks(s) =~= blocks(x) + blocks(y));
    } else if x.len() >= 2 && x[0] == 124u8 && x[1] == 124u8 {
        lemma_blocks_concat(x.skip(2), y);
        assert(s.skip(2) =~= x.skip(2) + seq![124u8, 124u8] + y);
        assert(blocks(s) =~= blocks(x) + blocks(y));
    } else if x.len() == 1 {
        assert(s.skip(1) =~= seq![124u8, 124u8] + y);
        assert((seq![124u8, 124u8] + y).skip(2) =~= y);
        assert(blocks(seq![124u8, 124u8] + y) == seq![Seq::<u8>::empty()] + blocks(y));
        assert(blocks(x) == seq![x]);
        assert(seq![s[0]] + Seq::<u8>::empty() =~= x);
        assert(blocks(s) =~= blocks(x) + blocks(y));
    } else {
        lemma_blocks_concat(x.skip(1), y);
        lemma_blocks_nonempty(x.skip(1));
        assert(s.skip(1) =~= x.skip(1) + seq![124u8, 124u8] + y);
        let bx = blocks(x.skip(1));
        assert(blocks(x) == bx.update(0, seq![x[0]] + bx[0]));
        assert(blocks(s) =~= blocks(x) + blocks(y));
    }
}

/// The conditions under which a project text reads back as it was written: each
/// name is not empty and holds neither a line break nor `|`, and no settings text
/// holds `|`.
pub open spec fn savable_step(step: SavedStep) -> bool {
    &&& step.name@.len() >= 1
    &&& forall|i: int| 0 <= i < step.name@.len() ==> step.name@[i] != 10u8 && step.name@[i] != 124u8
    &&& forall|i: int| 0 <= i < params_or_empty(step.params).len() ==> params_or_empty(step.params)[i] != 124u8
}

proof fn lemma_step_text_no_sep(step: SavedStep)
    requires
        savable_step(step),
    ensures
        forall|i: int| 0 <= i < step_text(step).len() ==> step_text(step)[i] != 124u8,
        step_text(step).last() == 10u8,
{
    let t = step_text(step);
    let n = step.name@.len() as int;
    let p = params_or_empty(step.params);
    assert forall|i: int| 0 <= i < t.len() implies t[i] != 124u8 by {
        if i < n {
            assert(t[i] == step.name@[i]);
        } else if i == n {
            assert(t[i] == 10u8);
        } else if i < n + 1 + p.len() {
            assert(t[i] == p[i - n - 1]);
        } else {
            assert(t[i] == 10u8);
        }
    }
}

proof fn lemma_blocks_of_project(steps: Seq<SavedStep>)
    requires
        steps.len() >= 1,
        forall|i: int| 0 <= i < steps.len() ==> savable_step(#[trigger] steps[i]),
    ensures
        blocks(project_text(steps)).len() == steps.len(),
        blocks(project_text(steps))[0] == step_text(steps[0]),
        forall|i: int| 1 <= i < steps.len() ==> blocks(project_text(steps))[i] == seq![10u8] + step_text(#[trigger] steps[i]),
        project_text(steps).last() == 10u8,
    decreases steps.len(),
{
    lemma_step_text_no_sep(steps[0]);
    if steps.len() == 1 {
        lemma_blocks_no_sep(step_text(steps[0]));
    } else {
        let prefix = steps.drop_last();
        assert forall|i: int| 0 <= i < prefix.len() implies savable_step(#[trigger] prefix[i]) by {
            assert(prefix[i] == steps[i]);
        }
        lemma_blocks_of_project(prefix);
        let last = steps.last();
        assert(savable_step(steps[steps.len() - 1]));
        lemma_step_text_no_sep(last);
        let tail = seq![10u8] + step_text(last);
        assert forall|i: int| 0 <= i < tail.len() implies tail[i] != 124u8 by {
            if i > 0 {
                assert(tail[i] == step_text(last)[i - 1]);
            }
        }
        lemma_blocks_no_sep(tail);
        assert(project_text(steps) =~= project_text(prefix) + seq![124u8, 124u8] + tail);
        lemma_blocks_concat(project_text(prefix), tail);
        assert forall|i: int| 1 <= i < steps.len() implies blocks(project_text(steps))[i] == seq![10u8]
            + step_text(#[trigger] steps[i]) by {
            if i < steps.len() - 1 {
                assert(prefix[i] == steps[i]);
            }
        }
    }
}

proof fn lemma_read_step_text(step: SavedStep)
    requires
        savable_step(step),
    ensures
        block_step(step_text(step)) == (step.name@, params_or_empty(step.params)),
        block_step(seq![10u8] + step_text(step)) == (step.name@, params_or_empty(step.params)),
{
    let t = step_text(step);
    let n = step.name@.len() as int;
    let p = params_or_empty(step.params);
    assert(t[0] == step.name@[0]);
    assert forall|j: int| 0 <= j < n implies t[j] != 10u8 by {
        assert(t[j] == step.name@[j]);
    }
    assert(t[n] == 10u8);
    lemma_first_newline(t, n);
    assert(t.take(n) =~= step.name@);
    let rest = t.skip(n + 1);
    assert(rest =~= p + seq![10u8]);
    assert(rest.drop_last() =~= p);
    assert((seq![10u8] + t).skip(1) =~= t);
}

/// A project text read back gives the steps it was written from, each with its
/// name and its settings text (empty where the step has none), provided every step
/// can be saved as `savable_step` says.
pub proof fn lemma_project_round_trip(steps: Seq<SavedStep>)
    requires
        steps.len() >= 1,
        forall|i: int| 0 <= i < steps.len() ==> savable_step(#[trigger] steps[i]),
    ensures
        project_steps(project_text(steps)).len() == steps.len(),
        forall|i: int|
            0 <= i < steps.len() ==> #[trigger] project_steps(project_text(steps))[i] == (
                steps[i].name@,
                params_or_empty(steps[i].params),
            ),
{
    lemma_blocks_of_project(steps);
    assert forall|i: int| 0 <= i < steps.len() implies #[trigger] project_steps(project_text(steps))[i] == (
        steps[i].name@,
        params_or_empty(steps[i].params),
    ) by {
        lemma_read_step_text(steps[i]);
    }
}

} // verus!

use crate::case::TargetCase;
use crate::errors::ApplicationError;
use crate::tree::{
    extents_of, matched, retexted, selected, texts_of, tree_outcome, NodeView, Tree,
};
use vstd::prelude::*;

verus! {

/// Whether the node at `up` was matched and the node at `at` lies in the
/// subtree under it.
pub open spec fn covers(extents: Seq<usize>, hits: Seq<Option<bool>>, up: int, at: int) -> bool {
    &&& 0 <= up < at
    &&& up < hits.len()
    &&& up < extents.len()
    &&& hits[up] == Some(true)
    &&& at - up < extents[up]
}

/// Whether the node at `at` lies under a matched node.
pub open spec fn covered(extents: Seq<usize>, hits: Seq<Option<bool>>, at: int) -> bool {
    exists|up: int| covers(extents, hits, up, at)
}

/// The content of one node after the rewrite.
pub open spec fn recased_text(
    text: Option<Seq<char>>,
    under_match: bool,
    target_case: TargetCase,
) -> Option<Seq<char>> {
    match text {
        Some(content) => if under_match {
            Some(target_case.mapped(content))
        } else {
            Some(content)
        },
        None => None,
    }
}

/// The content of every node after the rewrite: a text node under a matched
/// node holds its old content in the target case, every other node is as it
/// was.
pub open spec fn recased_texts(
    texts: Seq<Option<Seq<char>>>,
    extents: Seq<usize>,
    hits: Seq<Option<bool>>,
    target_case: TargetCase,
) -> Seq<Option<Seq<char>>> {
    Seq::new(
        texts.len(),
        |at: int| recased_text(texts[at], covered(extents, hits, at), target_case),
    )
}

/// The nodes of a tree after the rewrite.
pub open spec fn recased(
    nodes: Seq<NodeView>,
    hits: Seq<Option<bool>>,
    target_case: TargetCase,
) -> Seq<NodeView> {
    retexted(nodes, recased_texts(texts_of(nodes), extents_of(nodes), hits, target_case))
}

/// What changing the case under `selector` makes of the nodes of a tree.
pub open spec fn changed(
    nodes: Seq<NodeView>,
    selector: Seq<char>,
    target_case: TargetCase,
) -> Result<Seq<NodeView>, ApplicationError> {
    match selected(nodes, selector) {
        Ok(hits) => Ok(recased(nodes, hits, target_case)),
        Err(error) => Err(error),
    }
}

/// Rewrites the content of the text nodes that lie under a matched node.
/// The three vectors describe the nodes of one tree in document order.
pub fn recase_texts(
    texts: &Vec<Option<String>>,
    extents: &Vec<usize>,
    hits: &Vec<Option<bool>>,
    target_case: TargetCase,
) -> (out: Vec<Option<String>>)
    ensures
        out.deep_view() == recased_texts(texts.deep_view(), extents@, hits@, target_case),
{
    let mut out: Vec<Option<String>> = Vec::new();
    // How many nodes from `at` on still lie under a matched node.
    let mut open: usize = 0;
    let ghost mut cover: int = 0;
    let mut at: usize = 0;
    while at < texts.len()
        invariant
            at <= texts.len(),
            out.len() == at,
            out.deep_view() == recased_texts(texts.deep_view(), extents@, hits@, target_case).take(
                at as int,
            ),
            open > 0 ==> covers(extents@, hits@, cover, at as int) && open == cover
                + extents@[cover] - at,
            forall|up: int|
                covers(extents@, hits@, up, at as int) ==> up + extents@[up] - at <= open,
        decreases texts.len() - at,
    {
        let under_match = open > 0;
        assert(under_match == covered(extents@, hits@, at as int));
        let entry: Option<String> = match &texts[at] {
            Some(content) => if under_match {
                Some(target_case.apply(content.as_str()))
            } else {
                Some(content.clone())
            },
            None => None,
        };
        proof {
            let goal = recased_texts(texts.deep_view(), extents@, hits@, target_case);
            assert(texts.deep_view()[at as int] == texts@[at as int].deep_view());
            assert(entry.deep_view() == goal[at as int]);
            assert(out.deep_view().push(entry.deep_view()) =~= goal.take(at + 1));
        }
        let ghost before = out.deep_view();
        out.push(entry);
        assert(out.deep_view() =~= before.push(entry.deep_view()));
        // The node at `at` is behind us; a matched node opens its own subtree.
        let mut left: usize = if open > 0 {
            open - 1
        } else {
            0
        };
        let ghost mut next_cover = cover;
        if at < hits.len() && at < extents.len() {
            let own: usize = match hits[at] {
                Some(true) => if extents[at] > 0 {
                    extents[at] - 1
                } else {
                    0
                },
                _ => 0,
            };
            if own > left {
                left = own;
                proof {
                    next_cover = at as int;
                }
            }
        }
        proof {
            assert forall|up: int| covers(extents@, hits@, up, at + 1) implies up + extents@[up]
                - (at + 1) <= left by {
                if up < at {
                    assert(covers(extents@, hits@, up, at as int));
                }
            }
            cover = next_cover;
        }
        open = left;
        at += 1;
    }
    proof {
        let goal = recased_texts(texts.deep_view(), extents@, hits@, target_case);
        assert(goal.take(at as int) =~= goal);
    }
    out
}

/// Whether two trees differ in the content of their text nodes at most:
/// they have the same nodes, each with the same markup and the same extent,
/// and text in the same places.
pub open spec fn same_structure(before: Seq<NodeView>, after: Seq<NodeView>) -> bool {
    &&& after.len() == before.len()
    &&& forall|at: int|
        0 <= at < before.len() ==> {
            &&& (#[trigger] after[at]).markup == before[at].markup
            &&& after[at].extent == before[at].extent
            &&& after[at].text is Some <==> before[at].text is Some
        }
}

/// Structure is kept: the rewrite changes nothing but the content of text
/// nodes.
pub proof fn lemma_structure_kept(
    nodes: Seq<NodeView>,
    hits: Seq<Option<bool>>,
    target_case: TargetCase,
)
    ensures
        same_structure(nodes, recased(nodes, hits, target_case)),
{
}

/// Text outside the matched subtrees is not touched: a node that lies under
/// no matched node is after the rewrite what it was before.
pub proof fn lemma_uncovered_node_kept(
    nodes: Seq<NodeView>,
    hits: Seq<Option<bool>>,
    target_case: TargetCase,
    at: int,
)
    requires
        0 <= at < nodes.len(),
        !covered(extents_of(nodes), hits, at),
    ensures
        recased(nodes, hits, target_case)[at] == nodes[at],
{
}

/// Text under a matched node is mapped once, however many matched nodes it
/// lies under.
pub proof fn lemma_covered_text_mapped_once(
    nodes: Seq<NodeView>,
    hits: Seq<Option<bool>>,
    target_case: TargetCase,
    at: int,
)
    requires
        0 <= at < nodes.len(),
        covered(extents_of(nodes), hits, at),
        nodes[at].text is Some,
    ensures
        recased(nodes, hits, target_case)[at].text == Some(
            target_case.mapped(nodes[at].text->0),
        ),
{
}

/// Where nothing is matched, nothing changes.
pub proof fn lemma_no_match_no_change(
    nodes: Seq<NodeView>,
    hits: Seq<Option<bool>>,
    target_case: TargetCase,
)
    requires
        forall|up: int| 0 <= up < hits.len() ==> hits[up] != Some(true),
    ensures
        recased(nodes, hits, target_case) == nodes,
{
    assert(recased(nodes, hits, target_case) =~= nodes);
}

/// The rewrite repeats as the case mapping repeats: where mapping a text
/// under a matched node a second time gives what the first time gave, the
/// rewrite of the rewritten nodes is the rewritten nodes.
pub proof fn lemma_recased_twice(
    nodes: Seq<NodeView>,
    hits: Seq<Option<bool>>,
    target_case: TargetCase,
)
    requires
        forall|at: int|
            0 <= at < nodes.len() && covered(extents_of(nodes), hits, at) && (
            #[trigger] nodes[at]).text is Some ==> target_case.mapped(
                target_case.mapped(nodes[at].text->0),
            ) == target_case.mapped(nodes[at].text->0),
    ensures
        recased(recased(nodes, hits, target_case), hits, target_case) == recased(
            nodes,
            hits,
            target_case,
        ),
{
    let once = recased(nodes, hits, target_case);
    assert(extents_of(once) =~= extents_of(nodes));
    assert(recased(once, hits, target_case) =~= once);
}

impl Tree {
    /// Changes the case of all text under the elements that `selector`
    /// matches. Text that lies under several matched elements is still
    /// rewritten once. Fails when `selector` is no valid selector list.
    pub fn change_case(self, selector: &str, target_case: TargetCase) -> (outcome: Result<
        Tree,
        ApplicationError,
    >)
        ensures
            tree_outcome(outcome) == changed(self@, selector@, target_case),
            outcome matches Ok(tree) ==> same_structure(self@, tree@),
            outcome matches Ok(tree) ==> forall|at: int|
                0 <= at < self@.len() && !covered(
                    extents_of(self@),
                    matched(self@, selector@),
                    at,
                ) ==> #[trigger] tree@[at] == self@[at],
    {
        let hits = match self.select(selector) {
            Ok(hits) => hits,
            Err(error) => {
                return Err(error);
            },
        };
        let texts = self.texts();
        let extents = self.extents();
        let rewritten = recase_texts(&texts, &extents, &hits, target_case);
        let mut tree = self;
        tree.set_texts(rewritten);
        Ok(tree)
    }
}

} // verus!

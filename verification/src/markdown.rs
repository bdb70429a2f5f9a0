//! Markdown of an answer as a tree: the events of the CommonMark parser are
//! folded, with a stack of open elements, into nested nodes.
use pulldown_cmark::{CodeBlockKind, Event, Parser, Tag};
use vstd::prelude::*;
use vstd::string::*;

verus! {

#[derive(Debug, Clone, Copy, PartialEq, Eq, Structural)]
pub enum HeadingRank {
    H1,
    H2,
    H3,
    H4,
    H5,
    H6,
}

/// A tag that opens an element, as the parser reports it.
#[derive(Debug)]
pub enum MdTag {
    Paragraph,
    Heading(HeadingRank),
    BlockQuote,
    /// A code block with the language of a fenced block (`None`: indented).
    CodeBlock(Option<String>),
    List(Option<u64>),
    Item,
    Table,
    TableHead,
    TableRow,
    TableCell,
    Emphasis,
    Strong,
    Strikethrough,
    Link { dest_url: String, title: String },
    /// Any other tag.
    Other,
}

/// A parser event.
#[derive(Debug)]
pub enum MdEvent {
    Start(MdTag),
    End,
    Text(String),
    Code(String),
    SoftBreak,
    HardBreak,
    /// Any other event (HTML, rules, footnotes, ...).
    Other,
}

/// Kind of an element node.
#[derive(Debug)]
pub enum NodeKind {
    Heading(HeadingRank),
    Paragraph,
    Strong,
    Emphasis,
    Strikethrough,
    /// Destination and title.
    Link(String, String),
    /// Language (empty when not given).
    CodeBlock(String),
    /// Start number of an ordered list.
    List(Option<u64>),
    Item,
    BlockQuote,
    Table,
    TableHead,
    TableRow,
    TableCell,
}

/// A node of the rendered tree.
#[derive(Debug)]
pub enum MarkdownNode {
    Text(String),
    InlineCode(String),
    Break,
    Element(NodeKind, Vec<MarkdownNode>),
}

/// Kind of an element, by value.
pub enum KindV {
    Heading(HeadingRank),
    Paragraph,
    Strong,
    Emphasis,
    Strikethrough,
    Link(Seq<char>, Seq<char>),
    CodeBlock(Seq<char>),
    List(Option<u64>),
    Item,
    BlockQuote,
    Table,
    TableHead,
    TableRow,
    TableCell,
}

/// A tree node, by value.
pub enum TreeV {
    Text(Seq<char>),
    Code(Seq<char>),
    Break,
    Elem(KindV, Seq<TreeV>),
}

pub open spec fn kind_view(k: NodeKind) -> KindV {
    match k {
        NodeKind::Heading(l) => KindV::Heading(l),
        NodeKind::Paragraph => KindV::Paragraph,
        NodeKind::Strong => KindV::Strong,
        NodeKind::Emphasis => KindV::Emphasis,
        NodeKind::Strikethrough => KindV::Strikethrough,
        NodeKind::Link(u, t) => KindV::Link(u@, t@),
        NodeKind::CodeBlock(l) => KindV::CodeBlock(l@),
        NodeKind::List(s) => KindV::List(s),
        NodeKind::Item => KindV::Item,
        NodeKind::BlockQuote => KindV::BlockQuote,
        NodeKind::Table => KindV::Table,
        NodeKind::TableHead => KindV::TableHead,
        NodeKind::TableRow => KindV::TableRow,
        NodeKind::TableCell => KindV::TableCell,
    }
}

/// The element kind a tag opens; tags without a node of their own become
/// paragraphs.
pub open spec fn tag_kind(t: MdTag) -> KindV {
    match t {
        MdTag::Heading(l) => KindV::Heading(l),
        MdTag::Paragraph => KindV::Paragraph,
        MdTag::Strong => KindV::Strong,
        MdTag::Emphasis => KindV::Emphasis,
        MdTag::Strikethrough => KindV::Strikethrough,
        MdTag::Link { dest_url, title } => KindV::Link(dest_url@, title@),
        MdTag::CodeBlock(lang) => KindV::CodeBlock(
            match lang {
                Some(l) => l@,
                None => Seq::empty(),
            },
        ),
        MdTag::List(s) => KindV::List(s),
        MdTag::Item => KindV::Item,
        MdTag::BlockQuote => KindV::BlockQuote,
        MdTag::Table => KindV::Table,
        MdTag::TableHead => KindV::TableHead,
        MdTag::TableRow => KindV::TableRow,
        MdTag::TableCell => KindV::TableCell,
        MdTag::Other => KindV::Paragraph,
    }
}

/// A start tag opens the element of the same name: emphasis opens an
/// emphasis element, strong text a strong one, and so on for every tag, with
/// the tag's data (heading rank, list start, link destination and title,
/// code language) carried over; tags without an element of their own open a
/// paragraph.
pub proof fn tag_opens_same_element(t: MdTag)
    ensures
        (t is Paragraph || t is Other) <==> (tag_kind(t) is Paragraph),
        (t is Strong) <==> (tag_kind(t) is Strong),
        (t is Emphasis) <==> (tag_kind(t) is Emphasis),
        (t is Strikethrough) <==> (tag_kind(t) is Strikethrough),
        (t is Item) <==> (tag_kind(t) is Item),
        (t is BlockQuote) <==> (tag_kind(t) is BlockQuote),
        (t is Table) <==> (tag_kind(t) is Table),
        (t is TableHead) <==> (tag_kind(t) is TableHead),
        (t is TableRow) <==> (tag_kind(t) is TableRow),
        (t is TableCell) <==> (tag_kind(t) is TableCell),
        (t is Heading) <==> (tag_kind(t) is Heading),
        (t is List) <==> (tag_kind(t) is List),
        (t is Link) <==> (tag_kind(t) is Link),
        (t is CodeBlock) <==> (tag_kind(t) is CodeBlock),
        t matches MdTag::Heading(l) ==> tag_kind(t) == KindV::Heading(l),
        t matches MdTag::List(n) ==> tag_kind(t) == KindV::List(n),
        t matches MdTag::Link { dest_url, title } ==> tag_kind(t) == KindV::Link(dest_url@, title@),
        t matches MdTag::CodeBlock(Some(l)) ==> tag_kind(t) == KindV::CodeBlock(l@),
        t matches MdTag::CodeBlock(None) ==> tag_kind(t) == KindV::CodeBlock(Seq::empty()),
{
}

/// A node kind is seen as the element kind of the same name, with its data.
pub proof fn kind_view_keeps_name(k: NodeKind)
    ensures
        (k is Paragraph) <==> (kind_view(k) is Paragraph),
        (k is Strong) <==> (kind_view(k) is Strong),
        (k is Emphasis) <==> (kind_view(k) is Emphasis),
        (k is Strikethrough) <==> (kind_view(k) is Strikethrough),
        (k is Item) <==> (kind_view(k) is Item),
        (k is BlockQuote) <==> (kind_view(k) is BlockQuote),
        (k is Table) <==> (kind_view(k) is Table),
        (k is TableHead) <==> (kind_view(k) is TableHead),
        (k is TableRow) <==> (kind_view(k) is TableRow),
        (k is TableCell) <==> (kind_view(k) is TableCell),
        (k is Heading) <==> (kind_view(k) is Heading),
        (k is List) <==> (kind_view(k) is List),
        (k is Link) <==> (kind_view(k) is Link),
        (k is CodeBlock) <==> (kind_view(k) is CodeBlock),
        k matches NodeKind::Heading(l) ==> kind_view(k) == KindV::Heading(l),
        k matches NodeKind::List(n) ==> kind_view(k) == KindV::List(n),
        k matches NodeKind::Link(u, ti) ==> kind_view(k) == KindV::Link(u@, ti@),
        k matches NodeKind::CodeBlock(l) ==> kind_view(k) == KindV::CodeBlock(l@),
{
}

pub open spec fn node_view(n: MarkdownNode) -> TreeV
    decreases n,
{
    match n {
        MarkdownNode::Text(s) => TreeV::Text(s@),
        MarkdownNode::InlineCode(s) => TreeV::Code(s@),
        MarkdownNode::Break => TreeV::Break,
        MarkdownNode::Element(k, ch) => TreeV::Elem(kind_view(k), nodes_view(ch@)),
    }
}

pub open spec fn nodes_view(s: Seq<MarkdownNode>) -> Seq<TreeV>
    decreases s,
{
    if s.len() == 0 {
        Seq::empty()
    } else {
        nodes_view(s.drop_last()).push(node_view(s.last()))
    }
}

/// The fold state: the finished top-level nodes and the stack of open
/// elements with the children gathered so far.
#[verifier::ext_equal]
pub struct BuildState {
    pub root: Seq<TreeV>,
    pub stack: Seq<(KindV, Seq<TreeV>)>,
}

/// `n` added to the innermost open element, or to the top level.
pub open spec fn attach(s: BuildState, n: TreeV) -> BuildState {
    if s.stack.len() == 0 {
        BuildState { root: s.root.push(n), stack: s.stack }
    } else {
        let top = s.stack.last();
        BuildState { root: s.root, stack: s.stack.drop_last().push((top.0, top.1.push(n))) }
    }
}

/// The innermost open element closed and added to its parent.
pub open spec fn close_top(s: BuildState) -> BuildState {
    if s.stack.len() == 0 {
        s
    } else {
        let top = s.stack.last();
        attach(BuildState { root: s.root, stack: s.stack.drop_last() }, TreeV::Elem(top.0, top.1))
    }
}

/// One event: a start opens an element, an end closes the innermost one,
/// text, inline code and breaks become leaves (a soft break a space).
pub open spec fn step(s: BuildState, e: MdEvent) -> BuildState {
    match e {
        MdEvent::Start(t) => BuildState { root: s.root, stack: s.stack.push((tag_kind(t), Seq::empty())) },
        MdEvent::End => close_top(s),
        MdEvent::Text(t) => attach(s, TreeV::Text(t@)),
        MdEvent::Code(c) => attach(s, TreeV::Code(c@)),
        MdEvent::SoftBreak => attach(s, TreeV::Text(" "@)),
        MdEvent::HardBreak => attach(s, TreeV::Break),
        MdEvent::Other => s,
    }
}

pub open spec fn run(events: Seq<MdEvent>) -> BuildState
    decreases events.len(),
{
    if events.len() == 0 {
        BuildState { root: Seq::empty(), stack: Seq::empty() }
    } else {
        step(run(events.drop_last()), events.last())
    }
}

/// Elements still open at the end are closed, innermost first.
pub open spec fn close_all(s: BuildState) -> Seq<TreeV>
    decreases s.stack.len(),
{
    if s.stack.len() == 0 {
        s.root
    } else {
        close_all(close_top(s))
    }
}

/// The tree of an event stream.
pub open spec fn markdown_tree(events: Seq<MdEvent>) -> Seq<TreeV> {
    close_all(run(events))
}

proof fn lemma_nodes_view_push(s: Seq<MarkdownNode>, n: MarkdownNode)
    ensures
        nodes_view(s.push(n)) == nodes_view(s).push(node_view(n)),
{
    assert(s.push(n).drop_last() =~= s);
}


/// A token of the flattened structure: an element opens, an element
/// closes, or a leaf.
pub enum Tok {
    Open(KindV),
    Close,
    Leaf(TreeV),
}

/// Tokens of one event (other events carry none).
pub open spec fn event_toks(e: MdEvent) -> Seq<Tok> {
    match e {
        MdEvent::Start(t) => seq![Tok::Open(tag_kind(t))],
        MdEvent::End => seq![Tok::Close],
        MdEvent::Text(t) => seq![Tok::Leaf(TreeV::Text(t@))],
        MdEvent::Code(c) => seq![Tok::Leaf(TreeV::Code(c@))],
        MdEvent::SoftBreak => seq![Tok::Leaf(TreeV::Text(" "@))],
        MdEvent::HardBreak => seq![Tok::Leaf(TreeV::Break)],
        MdEvent::Other => Seq::empty(),
    }
}

pub open spec fn stream_toks(events: Seq<MdEvent>) -> Seq<Tok>
    decreases events.len(),
{
    if events.len() == 0 {
        Seq::empty()
    } else {
        stream_toks(events.drop_last()) + event_toks(events.last())
    }
}

/// Tokens of a tree: an element is its opening, its children and its
/// closing.
pub open spec fn tree_toks(t: TreeV) -> Seq<Tok>
    decreases t,
{
    match t {
        TreeV::Elem(k, ch) => seq![Tok::Open(k)] + forest_toks(ch) + seq![Tok::Close],
        _ => seq![Tok::Leaf(t)],
    }
}

pub open spec fn forest_toks(s: Seq<TreeV>) -> Seq<Tok>
    decreases s,
{
    if s.len() == 0 {
        Seq::empty()
    } else {
        forest_toks(s.drop_last()) + tree_toks(s.last())
    }
}

/// Open elements minus closed ones.
pub open spec fn depth(events: Seq<MdEvent>) -> int
    decreases events.len(),
{
    if events.len() == 0 {
        0
    } else {
        depth(events.drop_last()) + match events.last() {
            MdEvent::Start(_) => 1int,
            MdEvent::End => -1int,
            _ => 0int,
        }
    }
}

/// Every end closes an open element, and every element is closed.
pub open spec fn balanced(events: Seq<MdEvent>) -> bool {
    &&& depth(events) == 0
    &&& forall|k: int| 0 <= k <= events.len() ==> depth(#[trigger] events.take(k)) >= 0
}

/// Tokens of the open elements with the children gathered so far.
pub open spec fn stack_toks(st: Seq<(KindV, Seq<TreeV>)>) -> Seq<Tok>
    decreases st.len(),
{
    if st.len() == 0 {
        Seq::empty()
    } else {
        stack_toks(st.drop_last()) + seq![Tok::Open(st.last().0)] + forest_toks(st.last().1)
    }
}

pub open spec fn state_toks(s: BuildState) -> Seq<Tok> {
    forest_toks(s.root) + stack_toks(s.stack)
}

proof fn lemma_forest_push(s: Seq<TreeV>, t: TreeV)
    ensures
        forest_toks(s.push(t)) == forest_toks(s) + tree_toks(t),
{
    assert(s.push(t).drop_last() =~= s);
}

proof fn lemma_stack_push(st: Seq<(KindV, Seq<TreeV>)>, f: (KindV, Seq<TreeV>))
    ensures
        stack_toks(st.push(f)) == stack_toks(st) + seq![Tok::Open(f.0)] + forest_toks(f.1),
{
    assert(st.push(f).drop_last() =~= st);
}

proof fn lemma_attach_toks(s: BuildState, n: TreeV)
    ensures
        state_toks(attach(s, n)) == state_toks(s) + tree_toks(n),
        attach(s, n).stack.len() == s.stack.len(),
{
    if s.stack.len() == 0 {
        lemma_forest_push(s.root, n);
        assert(state_toks(attach(s, n)) =~= state_toks(s) + tree_toks(n));
    } else {
        let top = s.stack.last();
        let rest = s.stack.drop_last();
        lemma_forest_push(top.1, n);
        lemma_stack_push(rest, (top.0, top.1.push(n)));
        assert(s.stack =~= rest.push(top));
        lemma_stack_push(rest, top);
        assert(state_toks(attach(s, n)) =~= state_toks(s) + tree_toks(n));
    }
}

proof fn lemma_close_toks(s: BuildState)
    requires
        s.stack.len() > 0,
    ensures
        state_toks(close_top(s)) == state_toks(s) + seq![Tok::Close],
        close_top(s).stack.len() == s.stack.len() - 1,
{
    let top = s.stack.last();
    let rest = s.stack.drop_last();
    let inner = BuildState { root: s.root, stack: rest };
    lemma_attach_toks(inner, TreeV::Elem(top.0, top.1));
    assert(s.stack =~= rest.push(top));
    lemma_stack_push(rest, top);
    assert(state_toks(close_top(s)) =~= state_toks(s) + seq![Tok::Close]);
}

proof fn lemma_run_toks(events: Seq<MdEvent>)
    requires
        forall|k: int| 0 <= k <= events.len() ==> depth(#[trigger] events.take(k)) >= 0,
    ensures
        run(events).stack.len() == depth(events),
        state_toks(run(events)) == stream_toks(events),
    decreases events.len(),
{
    if events.len() == 0 {
        assert(state_toks(run(events)) =~= Seq::<Tok>::empty());
    } else {
        let p = events.drop_last();
        assert forall|k: int| 0 <= k <= p.len() implies depth(#[trigger] p.take(k)) >= 0 by {
            assert(p.take(k) =~= events.take(k));
        }
        lemma_run_toks(p);
        assert(events.take(events.len() as int) =~= events);
        let s = run(p);
        match events.last() {
            MdEvent::Start(t) => {
                lemma_stack_push(s.stack, (tag_kind(t), Seq::empty()));
                assert(forest_toks(Seq::<TreeV>::empty()) =~= Seq::<Tok>::empty());
                assert(state_toks(run(events)) =~= stream_toks(events));
            },
            MdEvent::End => {
                lemma_close_toks(s);
                assert(state_toks(run(events)) =~= stream_toks(events));
            },
            MdEvent::Text(t) => {
                lemma_attach_toks(s, TreeV::Text(t@));
            },
            MdEvent::Code(c) => {
                lemma_attach_toks(s, TreeV::Code(c@));
            },
            MdEvent::SoftBreak => {
                lemma_attach_toks(s, TreeV::Text(" "@));
            },
            MdEvent::HardBreak => {
                lemma_attach_toks(s, TreeV::Break);
            },
            MdEvent::Other => {
                assert(state_toks(run(events)) =~= stream_toks(events));
            },
        }
    }
}

/// For a balanced event stream the tree is exact: reading its elements and
/// leaves in order gives back the stream (other events aside).
pub proof fn tree_reproduces_events(events: Seq<MdEvent>)
    requires
        balanced(events),
    ensures
        forest_toks(markdown_tree(events)) == stream_toks(events),
{
    lemma_run_toks(events);
    let s = run(events);
    assert(stack_toks(s.stack) =~= Seq::<Tok>::empty());
    assert(forest_toks(s.root) =~= state_toks(s));
}

pub open spec fn frame_view(f: (NodeKind, Vec<MarkdownNode>)) -> (KindV, Seq<TreeV>) {
    (kind_view(f.0), nodes_view(f.1@))
}

pub open spec fn stack_view(s: Seq<(NodeKind, Vec<MarkdownNode>)>) -> Seq<(KindV, Seq<TreeV>)> {
    s.map_values(|f: (NodeKind, Vec<MarkdownNode>)| frame_view(f))
}

pub open spec fn state_view(root: Seq<MarkdownNode>, stack: Seq<(NodeKind, Vec<MarkdownNode>)>) -> BuildState {
    BuildState { root: nodes_view(root), stack: stack_view(stack) }
}

/// Style classes of a heading of the given rank.
pub fn heading_class(rank: HeadingRank) -> (r: &'static str)
    ensures
        r@ == match rank {
            HeadingRank::H1 => "text-2xl font-bold mt-8 mb-4 font-headline text-on-surface border-b border-outline-variant/30 pb-2"@,
            HeadingRank::H2 => "text-xl font-bold mt-6 mb-3 font-headline text-on-surface border-b border-outline-variant/20 pb-1"@,
            HeadingRank::H3 => "text-lg font-bold mt-5 mb-2 font-headline text-on-surface"@,
            _ => "text-base font-bold mt-4 mb-2 font-headline text-on-surface/80"@,
        },
{
    match rank {
        HeadingRank::H1 => "text-2xl font-bold mt-8 mb-4 font-headline text-on-surface border-b border-outline-variant/30 pb-2",
        HeadingRank::H2 => "text-xl font-bold mt-6 mb-3 font-headline text-on-surface border-b border-outline-variant/20 pb-1",
        HeadingRank::H3 => "text-lg font-bold mt-5 mb-2 font-headline text-on-surface",
        _ => "text-base font-bold mt-4 mb-2 font-headline text-on-surface/80",
    }
}

/// A copy of a string.
fn copy_string(s: &String) -> (r: String)
    ensures
        r@ == s@,
{
    s.clone()
}

/// The node kind a tag opens.
pub fn node_kind(t: &MdTag) -> (k: NodeKind)
    ensures
        kind_view(k) == tag_kind(*t),
        (*t is Paragraph || *t is Other) <==> (k is Paragraph),
        (*t is Strong) <==> (k is Strong),
        (*t is Emphasis) <==> (k is Emphasis),
        (*t is Strikethrough) <==> (k is Strikethrough),
        (*t is Item) <==> (k is Item),
        (*t is BlockQuote) <==> (k is BlockQuote),
        (*t is Table) <==> (k is Table),
        (*t is TableHead) <==> (k is TableHead),
        (*t is TableRow) <==> (k is TableRow),
        (*t is TableCell) <==> (k is TableCell),
        (*t is Heading) <==> (k is Heading),
        (*t is List) <==> (k is List),
        (*t is Link) <==> (k is Link),
        (*t is CodeBlock) <==> (k is CodeBlock),
        *t matches MdTag::Heading(l) ==> k == NodeKind::Heading(l),
        *t matches MdTag::List(n) ==> k == NodeKind::List(n),
{
    match t {
        MdTag::Heading(l) => NodeKind::Heading(*l),
        MdTag::Paragraph => NodeKind::Paragraph,
        MdTag::Strong => NodeKind::Strong,
        MdTag::Emphasis => NodeKind::Emphasis,
        MdTag::Strikethrough => NodeKind::Strikethrough,
        MdTag::Link { dest_url, title } => NodeKind::Link(copy_string(dest_url), copy_string(title)),
        MdTag::CodeBlock(lang) => NodeKind::CodeBlock(
            match lang {
                Some(l) => copy_string(l),
                None => String::new(),
            },
        ),
        MdTag::List(s) => NodeKind::List(*s),
        MdTag::Item => NodeKind::Item,
        MdTag::BlockQuote => NodeKind::BlockQuote,
        MdTag::Table => NodeKind::Table,
        MdTag::TableHead => NodeKind::TableHead,
        MdTag::TableRow => NodeKind::TableRow,
        MdTag::TableCell => NodeKind::TableCell,
        MdTag::Other => NodeKind::Paragraph,
    }
}

/// Adds `n` to the innermost open element, or to the top level.
fn attach_node(
    root: &mut Vec<MarkdownNode>,
    stack: &mut Vec<(NodeKind, Vec<MarkdownNode>)>,
    n: MarkdownNode,
)
    ensures
        state_view(final(root)@, final(stack)@) == attach(
            state_view(old(root)@, old(stack)@),
            node_view(n),
        ),
        final(stack)@.len() == old(stack)@.len(),
{
    let ghost s0 = state_view(root@, stack@);
    let ghost nv = node_view(n);
    match stack.pop() {
        None => {
            proof {
                lemma_nodes_view_push(root@, n);
            }
            root.push(n);
            assert(stack_view(stack@) =~= s0.stack);
        },
        Some(top) => {
            let (k, mut ch) = top;
            proof {
                lemma_nodes_view_push(ch@, n);
            }
            let ghost old_stack = stack@;
            ch.push(n);
            stack.push((k, ch));
            assert(stack_view(old_stack) =~= s0.stack.drop_last());
            assert(stack_view(stack@) =~= s0.stack.drop_last().push(
                (s0.stack.last().0, s0.stack.last().1.push(nv)),
            ));
        },
    }
}

/// Closes the innermost open element.
fn close_node(root: &mut Vec<MarkdownNode>, stack: &mut Vec<(NodeKind, Vec<MarkdownNode>)>)
    ensures
        state_view(final(root)@, final(stack)@) == close_top(state_view(old(root)@, old(stack)@)),
        final(stack)@.len() == if old(stack)@.len() == 0 {
            0
        } else {
            old(stack)@.len() - 1
        },
{
    let ghost s0 = state_view(root@, stack@);
    match stack.pop() {
        None => {
            assert(stack_view(stack@) =~= s0.stack);
        },
        Some(top) => {
            let (k, ch) = top;
            assert(stack_view(stack@) =~= s0.stack.drop_last());
            let node = MarkdownNode::Element(k, ch);
            attach_node(root, stack, node);
        },
    }
}

/// Folds parser events into the node tree (elements left open at the end
/// are closed).
pub fn build_tree(events: &Vec<MdEvent>) -> (r: Vec<MarkdownNode>)
    ensures
        nodes_view(r@) == markdown_tree(events@),
{
    let mut root: Vec<MarkdownNode> = Vec::new();
    let mut stack: Vec<(NodeKind, Vec<MarkdownNode>)> = Vec::new();
    let mut i: usize = 0;
    assert(nodes_view(root@) =~= Seq::<TreeV>::empty());
    assert(stack_view(stack@) =~= Seq::<(KindV, Seq<TreeV>)>::empty());
    assert(state_view(root@, stack@) =~= run(events@.take(0)));
    while i < events.len()
        invariant
            i <= events.len(),
            state_view(root@, stack@) == run(events@.take(i as int)),
        decreases events.len() - i,
    {
        assert(events@.take(i + 1).drop_last() =~= events@.take(i as int));
        assert(events@.take(i + 1).last() == events@[i as int]);
        match &events[i] {
            MdEvent::Start(tag) => {
                let k = node_kind(tag);
                let ghost s0 = stack@;
                stack.push((k, Vec::new()));
                assert(nodes_view(Seq::<MarkdownNode>::empty()) =~= Seq::<TreeV>::empty());
                assert(stack_view(stack@) =~= stack_view(s0).push(
                    (tag_kind(*tag), Seq::<TreeV>::empty()),
                ));
            },
            MdEvent::End => {
                close_node(&mut root, &mut stack);
            },
            MdEvent::Text(t) => {
                attach_node(&mut root, &mut stack, MarkdownNode::Text(copy_string(t)));
            },
            MdEvent::Code(c) => {
                attach_node(&mut root, &mut stack, MarkdownNode::InlineCode(copy_string(c)));
            },
            MdEvent::SoftBreak => {
                attach_node(&mut root, &mut stack, MarkdownNode::Text(" ".to_string()));
            },
            MdEvent::HardBreak => {
                attach_node(&mut root, &mut stack, MarkdownNode::Break);
            },
            MdEvent::Other => {},
        }
        i = i + 1;
    }
    assert(events@.take(events.len() as int) =~= events@);
    while stack.len() > 0
        invariant
            close_all(state_view(root@, stack@)) == markdown_tree(events@),
        decreases stack.len(),
    {
        close_node(&mut root, &mut stack);
    }
    assert(stack_view(stack@) =~= Seq::<(KindV, Seq<TreeV>)>::empty());
    root
}

#[verifier::external_type_specification]
#[verifier::external_body]
pub struct ExEvent<'a>(Event<'a>);

#[verifier::external_type_specification]
#[verifier::external_body]
pub struct ExTag<'a>(Tag<'a>);

#[verifier::external_type_specification]
#[verifier::external_body]
pub struct ExHeadingRank(pulldown_cmark::HeadingLevel);

/// The events `pulldown_cmark::Parser::new(content)` yields (default
/// options), each converted to an `MdEvent`.
pub uninterp spec fn markdown_events(content: Seq<char>) -> Seq<MdEvent>;

/// Runs the CommonMark parser of `pulldown_cmark` over `content`. The
/// contract names the result and states what the parser documents of every
/// event stream: start and end events are balanced (each `Start` is matched
/// by a later `End`, and the conversion keeps both one for one). Which
/// events come out of a given text is not stated.
#[verifier::external_body]
fn parse_events(content: &str) -> (r: Vec<MdEvent>)
    ensures
        r@ == markdown_events(content@),
        balanced(r@),
{
    Parser::new(content).map(md_event).collect()
}

/// Converts a parser event, variant by variant.
#[verifier::external_body]
fn md_event(e: Event<'_>) -> MdEvent {
    match e {
        Event::Start(t) => MdEvent::Start(md_tag(t)),
        Event::End(_) => MdEvent::End,
        Event::Text(s) => MdEvent::Text(s.into_string()),
        Event::Code(s) => MdEvent::Code(s.into_string()),
        Event::SoftBreak => MdEvent::SoftBreak,
        Event::HardBreak => MdEvent::HardBreak,
        _ => MdEvent::Other,
    }
}

/// Converts a tag that carries data.
#[verifier::external_body]
fn md_tag(t: Tag<'_>) -> MdTag {
    match t {
        Tag::Heading { level, .. } => MdTag::Heading(md_level(level)),
        Tag::CodeBlock(CodeBlockKind::Fenced(l)) => MdTag::CodeBlock(Some(l.into_string())),
        Tag::CodeBlock(CodeBlockKind::Indented) => MdTag::CodeBlock(None),
        Tag::List(start) => MdTag::List(start),
        Tag::Link { dest_url, title, .. } => MdTag::Link {
            dest_url: dest_url.into_string(),
            title: title.into_string(),
        },
        other => md_simple_tag(&other),
    }
}

/// Converts a tag without data.
#[verifier::external_body]
fn md_simple_tag(t: &Tag<'_>) -> MdTag {
    match t {
        Tag::Paragraph => MdTag::Paragraph,
        Tag::BlockQuote(_) => MdTag::BlockQuote,
        Tag::Item => MdTag::Item,
        Tag::Table(_) => MdTag::Table,
        Tag::TableHead => MdTag::TableHead,
        Tag::TableRow => MdTag::TableRow,
        Tag::TableCell => MdTag::TableCell,
        Tag::Emphasis => MdTag::Emphasis,
        Tag::Strong => MdTag::Strong,
        Tag::Strikethrough => MdTag::Strikethrough,
        _ => MdTag::Other,
    }
}

/// Converts a heading level.
#[verifier::external_body]
fn md_level(l: pulldown_cmark::HeadingLevel) -> HeadingRank {
    match l {
        pulldown_cmark::HeadingLevel::H1 => HeadingRank::H1,
        pulldown_cmark::HeadingLevel::H2 => HeadingRank::H2,
        pulldown_cmark::HeadingLevel::H3 => HeadingRank::H3,
        pulldown_cmark::HeadingLevel::H4 => HeadingRank::H4,
        pulldown_cmark::HeadingLevel::H5 => HeadingRank::H5,
        pulldown_cmark::HeadingLevel::H6 => HeadingRank::H6,
    }
}

/// The node tree of a markdown text: reading its elements and leaves in
/// order gives back the parser's events.
pub fn parse_markdown(content: &str) -> (r: Vec<MarkdownNode>)
    ensures
        nodes_view(r@) == markdown_tree(markdown_events(content@)),
        forest_toks(nodes_view(r@)) == stream_toks(markdown_events(content@)),
{
    let events = parse_events(content);
    proof {
        tree_reproduces_events(events@);
    }
    build_tree(&events)
}

} // verus!

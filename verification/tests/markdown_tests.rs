use modelcheck::markdown::{
    build_tree, heading_class, parse_markdown, HeadingRank, MarkdownNode, MdEvent, MdTag, NodeKind,
};

fn text(n: &MarkdownNode) -> Option<&str> {
    match n {
        MarkdownNode::Text(s) => Some(s.as_str()),
        _ => None,
    }
}

#[test]
fn events_fold_into_a_tree() {
    let events = vec![
        MdEvent::Start(MdTag::Paragraph),
        MdEvent::Text("a".to_string()),
        MdEvent::Start(MdTag::Strong),
        MdEvent::Text("b".to_string()),
        MdEvent::End,
        MdEvent::SoftBreak,
        MdEvent::HardBreak,
        MdEvent::Other,
        MdEvent::End,
        MdEvent::Code("x".to_string()),
    ];
    let tree = build_tree(&events);
    assert_eq!(tree.len(), 2);
    match &tree[0] {
        MarkdownNode::Element(NodeKind::Paragraph, ch) => {
            assert_eq!(ch.len(), 4);
            assert_eq!(text(&ch[0]), Some("a"));
            assert!(matches!(&ch[1], MarkdownNode::Element(NodeKind::Strong, inner) if text(&inner[0]) == Some("b")));
            assert_eq!(text(&ch[2]), Some(" "));
            assert!(matches!(ch[3], MarkdownNode::Break));
        }
        _ => panic!("expected a paragraph"),
    }
    assert!(matches!(&tree[1], MarkdownNode::InlineCode(c) if c == "x"));
}

#[test]
fn open_elements_are_closed_at_the_end() {
    let events = vec![
        MdEvent::End,
        MdEvent::Start(MdTag::List(Some(3))),
        MdEvent::Start(MdTag::Item),
        MdEvent::Text("i".to_string()),
    ];
    let tree = build_tree(&events);
    assert_eq!(tree.len(), 1);
    match &tree[0] {
        MarkdownNode::Element(NodeKind::List(Some(3)), items) => {
            assert!(matches!(&items[0], MarkdownNode::Element(NodeKind::Item, c) if c.len() == 1));
        }
        _ => panic!("expected a list"),
    }
}

#[test]
fn tags_map_to_kinds() {
    let events = vec![
        MdEvent::Start(MdTag::CodeBlock(None)),
        MdEvent::End,
        MdEvent::Start(MdTag::CodeBlock(Some("rust".to_string()))),
        MdEvent::End,
        MdEvent::Start(MdTag::Other),
        MdEvent::End,
        MdEvent::Start(MdTag::Link { dest_url: "u".to_string(), title: "t".to_string() }),
        MdEvent::End,
    ];
    let tree = build_tree(&events);
    assert!(matches!(&tree[0], MarkdownNode::Element(NodeKind::CodeBlock(l), _) if l.is_empty()));
    assert!(matches!(&tree[1], MarkdownNode::Element(NodeKind::CodeBlock(l), _) if l == "rust"));
    assert!(matches!(&tree[2], MarkdownNode::Element(NodeKind::Paragraph, _)));
    assert!(matches!(&tree[3], MarkdownNode::Element(NodeKind::Link(u, t), _) if u == "u" && t == "t"));
}

#[test]
fn markdown_text_is_parsed() {
    let tree = parse_markdown("# Title\n\nSome **bold** and `code`.\n\n```py\nx = 1\n```\n");
    assert_eq!(tree.len(), 3);
    match &tree[0] {
        MarkdownNode::Element(NodeKind::Heading(HeadingRank::H1), ch) => assert_eq!(text(&ch[0]), Some("Title")),
        _ => panic!("expected a heading"),
    }
    match &tree[1] {
        MarkdownNode::Element(NodeKind::Paragraph, ch) => {
            assert_eq!(text(&ch[0]), Some("Some "));
            assert!(matches!(&ch[1], MarkdownNode::Element(NodeKind::Strong, _)));
            assert!(ch.iter().any(|n| matches!(n, MarkdownNode::InlineCode(c) if c == "code")));
        }
        _ => panic!("expected a paragraph"),
    }
    assert!(matches!(&tree[2], MarkdownNode::Element(NodeKind::CodeBlock(l), c) if l == "py" && text(&c[0]) == Some("x = 1\n")));
}

#[test]
fn heading_classes() {
    assert!(heading_class(HeadingRank::H1).starts_with("text-2xl"));
    assert!(heading_class(HeadingRank::H3).starts_with("text-lg"));
    assert_eq!(heading_class(HeadingRank::H5), heading_class(HeadingRank::H4));
}

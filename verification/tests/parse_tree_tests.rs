use tokenizer::parse_tree::{ParseNode, TokenType};

#[test]
fn new_node_has_its_entry_and_no_children() {
    assert_eq!(
        format!("{:?}", ParseNode::new(TokenType::Sum)),
        "ParseNode { children: [], entry: Sum }"
    );
    assert_eq!(
        format!("{:?}", ParseNode::new(TokenType::Product)),
        "ParseNode { children: [], entry: Product }"
    );
    assert_eq!(
        format!("{:?}", ParseNode::new(TokenType::Paren)),
        "ParseNode { children: [], entry: Paren }"
    );
    assert_eq!(
        format!("{:?}", ParseNode::new(TokenType::Number(-42))),
        "ParseNode { children: [], entry: Number(-42) }"
    );
    assert_eq!(
        format!("{:?}", ParseNode::new(TokenType::Number(i64::MAX))),
        "ParseNode { children: [], entry: Number(9223372036854775807) }"
    );
}

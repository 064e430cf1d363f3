use dfwasm::codec::{decode_json, encode_json};
use dfwasm::json_block::JSONBlock;
use dfwasm::template::{Args, Block, BracketDirection, BracketKind, Item, Template, VariableScope};

#[test]
fn test_block_conversion() {
    let block = Block::PlayerEvent { action: "test".to_string(), ls_cancel: true };
    let json = JSONBlock::from_block(block.clone());
    let block2 = Block::from_json(json);
    assert_eq!(block, block2);
}

#[test]
fn block_conversion_keeps_arguments_and_brackets() {
    let blocks = vec![
        Block::Function { args: Args::with(vec![Item::string("x")]), name: "f".to_string() },
        Block::SetVariable {
            args: Args::with(vec![Item::var("a"), Item::num("1.5")]),
            action: "=".to_string(),
        },
        Block::IfVariable { args: Args::with(vec![Item::var("a")]), action: "!=".to_string(), is_negated: true },
        Block::Bracket { direction: BracketDirection::Open, kind: BracketKind::Normal },
        Block::Else,
        Block::Bracket { direction: BracketDirection::Close, kind: BracketKind::Repeat },
    ];
    for block in blocks {
        let back = Block::from_json(JSONBlock::from_block(block.clone()));
        assert_eq!(block, back);
    }
}

#[test]
fn args_conversion_round_trip() {
    let args = Args::with(vec![Item::var("a"), Item::num("2"), Item::string("s")]);
    let json = dfwasm::json_block::JSONArgs::from_args(args.clone());
    assert_eq!(Args::from_json(json), args);
}

#[test]
fn args_with_places_items_in_consecutive_slots() {
    let args = Args::with(vec![Item::num("1"), Item::num("2")]);
    assert_eq!(args.0[0].0, 0);
    assert_eq!(args.0[1].0, 1);
}

#[test]
fn args_with_tags_puts_tags_at_the_end() {
    let args = Args::with_tags(
        vec![Item::num("1")],
        vec![Item::Tag {
            option: "Ticks".to_string(),
            tag: "Time Unit".to_string(),
            action: "Wait".to_string(),
            block: dfwasm::template::CodeBlock::Control,
        }],
    );
    assert_eq!(args.0.len(), 2);
    assert_eq!(args.0[0].0, 0);
    assert_eq!(args.0[1].0, 26);
}

#[test]
fn item_constructors() {
    assert_eq!(Item::var("v"), Item::Variable { name: "v".to_string(), scope: VariableScope::Game });
    assert_eq!(Item::num("3"), Item::Number { name: "3".to_string() });
    assert_eq!(Item::string("s"), Item::String { name: "s".to_string() });
}

#[test]
fn template_builders_append_blocks() {
    let mut t = Template::start_function("f");
    t.set_var("=", Args::default()).open_bracket().close_bracket().else_block();
    assert_eq!(t.blocks.len(), 5);
    assert_eq!(t.get_name(), Some("f".to_string()));
    assert_eq!(t.blocks[4], Block::Else);
}

#[test]
fn hidden_function_has_a_tag() {
    let t = Template::start_function_hidden("g");
    assert_eq!(t.get_name(), Some("g".to_string()));
    match &t.blocks[0] {
        Block::Function { args, .. } => {
            assert_eq!(args.0.len(), 1);
            assert_eq!(args.0[0].0, 26);
        }
        _ => panic!("expected a function"),
    }
}

#[test]
fn template_without_function_has_no_name() {
    let t = Template::new(vec![Block::Else]);
    assert_eq!(t.get_name(), None);
}

#[test]
fn encoded_json_decodes_to_the_same_text() {
    let json = r#"{"blocks":[{"id":"block","block":"func","data":"f"}]}"#;
    let encoded = encode_json(json);
    assert_ne!(encoded, json);
    assert_eq!(decode_json(&encoded), Some(json.to_string()));
}

#[test]
fn encoded_json_is_base64_of_gzip() {
    let encoded = encode_json("{}");
    // gzip streams start with 1f 8b 08, which base64 writes as "H4sI".
    assert!(encoded.starts_with("H4sI"));
}

#[test]
fn garbage_does_not_decode() {
    assert_eq!(decode_json("not base64!"), None);
    assert_eq!(decode_json("!"), None);
    // base64 whose last character carries bits that no bytes give
    assert_eq!(decode_json("QR=="), None);
}

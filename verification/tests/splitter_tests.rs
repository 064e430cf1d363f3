use dfwasm::splitter::{split_into_existing, split_templates, try_split_templates};
use dfwasm::template::{Args, Block, Template};

fn long_function(name: &str, n: usize) -> Template {
    let mut t = Template::start_function(name);
    for _ in 0..n {
        t.call_function("x", Args::default());
    }
    t
}

#[test]
fn small_templates_are_kept_in_reverse_order() {
    let a = long_function("a", 2);
    let b = long_function("b", 3);
    let out = split_templates(vec![a.clone(), b.clone()], 301);
    assert_eq!(out, vec![b, a]);
}

#[test]
fn large_function_is_split_into_fitting_pieces() {
    let t = long_function("f", 200);
    let out = split_templates(vec![t], 301);
    assert!(out.len() >= 2);
    for piece in &out {
        assert!(piece.blocks.len() * 2 + 4 <= 301);
    }
    assert_eq!(out[0].get_name(), Some("f".to_string()));
    assert_eq!(out[1].get_name(), Some("f--1".to_string()));
    assert_eq!(
        out[0].blocks.last().unwrap(),
        &Block::CallFunction { args: Args::default(), func: "f--1".to_string() }
    );
    let total: usize = out.iter().map(|p| p.blocks.len()).sum();
    // each cut adds a call on the left and a function block on the right
    assert_eq!(total, 201 + 2 * (out.len() - 1));
}

#[test]
fn templates_that_are_not_functions_cannot_be_split() {
    let mut t = Template::new(vec![]);
    for _ in 0..200 {
        t.call_function("x", Args::default());
    }
    assert_eq!(try_split_templates(vec![t], 301), None);
}

#[test]
fn split_into_existing_moves_the_tail() {
    let mut v = vec![1, 2, 3, 4];
    let mut target = vec![9];
    split_into_existing(&mut v, 1, &mut target);
    assert_eq!(v, vec![1]);
    assert_eq!(target, vec![9, 2, 3, 4]);
}

#[test]
fn split_pieces_form_a_chain_with_new_names() {
    // a function named like the pieces would be is already there
    let taken = long_function("f--2", 1);
    let t = long_function("f", 400);
    let out = split_templates(vec![taken.clone(), t], 301);
    // the last template of the stack is split first
    let pieces: Vec<&Template> = out[..out.len() - 1].iter().collect();
    assert!(pieces.len() >= 3);
    let names: Vec<String> = pieces.iter().map(|p| p.get_name().unwrap()).collect();
    assert_eq!(names[0], "f");
    for k in 1..names.len() {
        assert_ne!(names[k], "f--2");
        assert!(matches!(pieces[k].blocks[0], Block::Function { .. }));
        for l in 0..k {
            assert_ne!(names[k], names[l]);
        }
    }
    for k in 0..pieces.len() - 1 {
        assert_eq!(
            pieces[k].blocks.last().unwrap(),
            &Block::CallFunction { args: Args::default(), func: names[k + 1].clone() }
        );
    }
    assert_eq!(out.last().unwrap(), &taken);
}

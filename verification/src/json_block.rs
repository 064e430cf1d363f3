//! The shape blocks and arguments take in template data: every code block is
//! a record with optional fields (`args`, `action`, `data`, `attribute`,
//! `subAction`, `target`), and arguments are a list of items with their slots.
use vstd::prelude::*;
use crate::template::{
    Args, ArgsV, BlockV, Block, BracketDirection, BracketKind, CodeBlock, Item, Target, clone_item,
    item_view, opt_text,
};
use crate::text::owned;

verus! {

/// An item with the slot it is placed in, as template data lists it.
#[derive(Debug, Clone, PartialEq)]
pub struct SlottedItem {
    pub item: Item,
    pub slot: usize,
}

/// Arguments as template data lists them.
#[derive(Debug, Clone, PartialEq)]
pub struct JSONArgs {
    pub items: Vec<SlottedItem>,
}

/// A block as template data records it.
#[derive(Debug, Clone, PartialEq)]
pub enum JSONBlock {
    CodeBlock {
        block: CodeBlock,
        args: Option<Args>,
        action: Option<String>,
        data: Option<String>,
        attribute: Option<String>,
        sub_action: Option<String>,
        target: Option<Target>,
    },
    Bracket { direction: BracketDirection, kind: BracketKind },
}

/// The value of a recorded block.
pub enum JSONBlockV {
    CodeBlock {
        block: CodeBlock,
        args: Option<ArgsV>,
        action: Option<Seq<char>>,
        data: Option<Seq<char>>,
        attribute: Option<Seq<char>>,
        sub_action: Option<Seq<char>>,
        target: Option<Target>,
    },
    Bracket { direction: BracketDirection, kind: BracketKind },
}

/// The value of optional arguments.
pub open spec fn opt_args(o: Option<Args>) -> Option<ArgsV> {
    match o {
        Some(a) => Some(a@),
        None => None,
    }
}

impl View for JSONBlock {
    type V = JSONBlockV;

    open spec fn view(&self) -> JSONBlockV {
        match *self {
            JSONBlock::CodeBlock { block, args, action, data, attribute, sub_action, target } => {
                JSONBlockV::CodeBlock {
                    block,
                    args: opt_args(args),
                    action: opt_text(action),
                    data: opt_text(data),
                    attribute: opt_text(attribute),
                    sub_action: opt_text(sub_action),
                    target,
                }
            },
            JSONBlock::Bracket { direction, kind } => JSONBlockV::Bracket { direction, kind },
        }
    }
}

impl View for JSONArgs {
    type V = ArgsV;

    open spec fn view(&self) -> ArgsV {
        self.items@.map_values(|s: SlottedItem| (s.slot, item_view(s.item)))
    }
}

/// How a block is recorded.
pub open spec fn block_to_json(b: BlockV) -> JSONBlockV {
    match b {
        BlockV::PlayerEvent { action, ls_cancel } => JSONBlockV::CodeBlock {
            block: CodeBlock::PlayerEvent,
            args: None,
            action: Some(action),
            data: None,
            attribute: if ls_cancel { Some("LS-CANCEL"@) } else { None },
            sub_action: None,
            target: None,
        },
        BlockV::EntityEvent { action, ls_cancel } => JSONBlockV::CodeBlock {
            block: CodeBlock::EntityEvent,
            args: None,
            action: Some(action),
            data: None,
            attribute: if ls_cancel { Some("LS-CANCEL"@) } else { None },
            sub_action: None,
            target: None,
        },
        BlockV::Function { args, name } => JSONBlockV::CodeBlock {
            block: CodeBlock::Function,
            args: Some(args),
            action: None,
            data: Some(name),
            attribute: None,
            sub_action: None,
            target: None,
        },
        BlockV::Process { args, name } => JSONBlockV::CodeBlock {
            block: CodeBlock::Process,
            args: Some(args),
            action: None,
            data: Some(name),
            attribute: None,
            sub_action: None,
            target: None,
        },
        BlockV::PlayerAction { args, action, target } => JSONBlockV::CodeBlock {
            block: CodeBlock::PlayerAction,
            args: Some(args),
            action: Some(action),
            data: None,
            attribute: None,
            sub_action: None,
            target: target,
        },
        BlockV::IfPlayer { args, action, target, is_negated } => JSONBlockV::CodeBlock {
            block: CodeBlock::IfPlayer,
            args: Some(args),
            action: Some(action),
            data: None,
            attribute: if is_negated { Some("NOT"@) } else { None },
            sub_action: None,
            target: target,
        },
        BlockV::StartProcess { args, proc } => JSONBlockV::CodeBlock {
            block: CodeBlock::StartProcess,
            args: Some(args),
            action: None,
            data: Some(proc),
            attribute: None,
            sub_action: None,
            target: None,
        },
        BlockV::CallFunction { args, func } => JSONBlockV::CodeBlock {
            block: CodeBlock::CallFunction,
            args: Some(args),
            action: None,
            data: Some(func),
            attribute: None,
            sub_action: None,
            target: None,
        },
        BlockV::Control { args, action } => JSONBlockV::CodeBlock {
            block: CodeBlock::Control,
            args: Some(args),
            action: Some(action),
            data: None,
            attribute: None,
            sub_action: None,
            target: None,
        },
        BlockV::SetVariable { args, action } => JSONBlockV::CodeBlock {
            block: CodeBlock::SetVariable,
            args: Some(args),
            action: Some(action),
            data: None,
            attribute: None,
            sub_action: None,
            target: None,
        },
        BlockV::IfEntity { args, action, target, is_negated } => JSONBlockV::CodeBlock {
            block: CodeBlock::IfEntity,
            args: Some(args),
            action: Some(action),
            data: None,
            attribute: if is_negated { Some("NOT"@) } else { None },
            sub_action: None,
            target: target,
        },
        BlockV::EntityAction { args, action, target } => JSONBlockV::CodeBlock {
            block: CodeBlock::EntityAction,
            args: Some(args),
            action: Some(action),
            data: None,
            attribute: None,
            sub_action: None,
            target: target,
        },
        BlockV::IfVariable { args, action, is_negated } => JSONBlockV::CodeBlock {
            block: CodeBlock::IfVariable,
            args: Some(args),
            action: Some(action),
            data: None,
            attribute: if is_negated { Some("NOT"@) } else { None },
            sub_action: None,
            target: None,
        },
        BlockV::SelectObject { args, action, sub_action, is_negated } => JSONBlockV::CodeBlock {
            block: CodeBlock::SelectObject,
            args: Some(args),
            action: Some(action),
            data: None,
            attribute: if is_negated { Some("NOT"@) } else { None },
            sub_action: sub_action,
            target: None,
        },
        BlockV::GameAction { args, action } => JSONBlockV::CodeBlock {
            block: CodeBlock::GameAction,
            args: Some(args),
            action: Some(action),
            data: None,
            attribute: None,
            sub_action: None,
            target: None,
        },
        BlockV::Repeat { args, action, sub_action, is_negated } => JSONBlockV::CodeBlock {
            block: CodeBlock::Repeat,
            args: Some(args),
            action: Some(action),
            data: None,
            attribute: if is_negated { Some("NOT"@) } else { None },
            sub_action: sub_action,
            target: None,
        },
        BlockV::IfGame { args, action, is_negated } => JSONBlockV::CodeBlock {
            block: CodeBlock::IfGame,
            args: Some(args),
            action: Some(action),
            data: None,
            attribute: if is_negated { Some("NOT"@) } else { None },
            sub_action: None,
            target: None,
        },
        BlockV::Else => JSONBlockV::CodeBlock {
            block: CodeBlock::Else,
            args: None,
            action: None,
            data: None,
            attribute: None,
            sub_action: None,
            target: None,
        },
        BlockV::Bracket { direction, kind } => JSONBlockV::Bracket { direction, kind },
    }
}

/// Whether a record carries every field its block kind needs.
pub open spec fn json_complete(j: JSONBlockV) -> bool {
    match j {
        JSONBlockV::CodeBlock { block, args, action, data, .. } => match block {
            CodeBlock::PlayerEvent | CodeBlock::EntityEvent => action is Some,
            CodeBlock::Function | CodeBlock::Process | CodeBlock::StartProcess
            | CodeBlock::CallFunction => args is Some && data is Some,
            CodeBlock::Else => true,
            _ => args is Some && action is Some,
        },
        JSONBlockV::Bracket { .. } => true,
    }
}

/// The block a complete record stands for.
pub open spec fn json_to_block(j: JSONBlockV) -> BlockV {
    match j {
        JSONBlockV::CodeBlock { block, args, action, data, attribute, sub_action, target } => {
            match block {
                CodeBlock::PlayerEvent => BlockV::PlayerEvent { action: action.unwrap(), ls_cancel: attribute is Some },
                CodeBlock::EntityEvent => BlockV::EntityEvent { action: action.unwrap(), ls_cancel: attribute is Some },
                CodeBlock::Function => BlockV::Function { args: args.unwrap(), name: data.unwrap() },
                CodeBlock::Process => BlockV::Process { args: args.unwrap(), name: data.unwrap() },
                CodeBlock::PlayerAction => BlockV::PlayerAction { args: args.unwrap(), action: action.unwrap(), target },
                CodeBlock::IfPlayer => BlockV::IfPlayer { args: args.unwrap(), action: action.unwrap(), target, is_negated: attribute is Some },
                CodeBlock::StartProcess => BlockV::StartProcess { args: args.unwrap(), proc: data.unwrap() },
                CodeBlock::CallFunction => BlockV::CallFunction { args: args.unwrap(), func: data.unwrap() },
                CodeBlock::Control => BlockV::Control { args: args.unwrap(), action: action.unwrap() },
                CodeBlock::SetVariable => BlockV::SetVariable { args: args.unwrap(), action: action.unwrap() },
                CodeBlock::IfEntity => BlockV::IfEntity { args: args.unwrap(), action: action.unwrap(), target, is_negated: attribute is Some },
                CodeBlock::EntityAction => BlockV::EntityAction { args: args.unwrap(), action: action.unwrap(), target },
                CodeBlock::IfVariable => BlockV::IfVariable { args: args.unwrap(), action: action.unwrap(), is_negated: attribute is Some },
                CodeBlock::SelectObject => BlockV::SelectObject { args: args.unwrap(), action: action.unwrap(), sub_action, is_negated: attribute is Some },
                CodeBlock::GameAction => BlockV::GameAction { args: args.unwrap(), action: action.unwrap() },
                CodeBlock::Repeat => BlockV::Repeat { args: args.unwrap(), action: action.unwrap(), sub_action, is_negated: attribute is Some },
                CodeBlock::IfGame => BlockV::IfGame { args: args.unwrap(), action: action.unwrap(), is_negated: attribute is Some },
                CodeBlock::Else => BlockV::Else,
            }
        },
        JSONBlockV::Bracket { direction, kind } => BlockV::Bracket { direction, kind },
    }
}

/// Recording a block and reading the record back gives the block again.
pub proof fn lemma_block_json_roundtrip(b: BlockV)
    ensures
        json_complete(block_to_json(b)),
        json_to_block(block_to_json(b)) == b,
{
}

impl JSONBlock {
    /// Records a block.
    pub fn from_block(block: Block) -> (r: JSONBlock)
        ensures
            r@ == block_to_json(block@),
    {
        proof {
            reveal_strlit("LS-CANCEL");
            reveal_strlit("NOT");
        }
        match block {
            Block::PlayerEvent { action, ls_cancel } => JSONBlock::CodeBlock {
                block: CodeBlock::PlayerEvent,
                args: None,
                action: Some(action),
                data: None,
                attribute: if ls_cancel { Some(owned("LS-CANCEL")) } else { None },
                sub_action: None,
                target: None,
            },
            Block::EntityEvent { action, ls_cancel } => JSONBlock::CodeBlock {
                block: CodeBlock::EntityEvent,
                args: None,
                action: Some(action),
                data: None,
                attribute: if ls_cancel { Some(owned("LS-CANCEL")) } else { None },
                sub_action: None,
                target: None,
            },
            Block::Function { args, name } => JSONBlock::CodeBlock {
                block: CodeBlock::Function,
                args: Some(args),
                action: None,
                data: Some(name),
                attribute: None,
                sub_action: None,
                target: None,
            },
            Block::Process { args, name } => JSONBlock::CodeBlock {
                block: CodeBlock::Process,
                args: Some(args),
                action: None,
                data: Some(name),
                attribute: None,
                sub_action: None,
                target: None,
            },
            Block::PlayerAction { args, action, target } => JSONBlock::CodeBlock {
                block: CodeBlock::PlayerAction,
                args: Some(args),
                action: Some(action),
                data: None,
                attribute: None,
                sub_action: None,
                target: target,
            },
            Block::IfPlayer { args, action, target, is_negated } => JSONBlock::CodeBlock {
                block: CodeBlock::IfPlayer,
                args: Some(args),
                action: Some(action),
                data: None,
                attribute: if is_negated { Some(owned("NOT")) } else { None },
                sub_action: None,
                target: target,
            },
            Block::StartProcess { args, proc } => JSONBlock::CodeBlock {
                block: CodeBlock::StartProcess,
                args: Some(args),
                action: None,
                data: Some(proc),
                attribute: None,
                sub_action: None,
                target: None,
            },
            Block::CallFunction { args, func } => JSONBlock::CodeBlock {
                block: CodeBlock::CallFunction,
                args: Some(args),
                action: None,
                data: Some(func),
                attribute: None,
                sub_action: None,
                target: None,
            },
            Block::Control { args, action } => JSONBlock::CodeBlock {
                block: CodeBlock::Control,
                args: Some(args),
                action: Some(action),
                data: None,
                attribute: None,
                sub_action: None,
                target: None,
            },
            Block::SetVariable { args, action } => JSONBlock::CodeBlock {
                block: CodeBlock::SetVariable,
                args: Some(args),
                action: Some(action),
                data: None,
                attribute: None,
                sub_action: None,
                target: None,
            },
            Block::IfEntity { args, action, target, is_negated } => JSONBlock::CodeBlock {
                block: CodeBlock::IfEntity,
                args: Some(args),
                action: Some(action),
                data: None,
                attribute: if is_negated { Some(owned("NOT")) } else { None },
                sub_action: None,
                target: target,
            },
            Block::EntityAction { args, action, target } => JSONBlock::CodeBlock {
                block: CodeBlock::EntityAction,
                args: Some(args),
                action: Some(action),
                data: None,
                attribute: None,
                sub_action: None,
                target: target,
            },
            Block::IfVariable { args, action, is_negated } => JSONBlock::CodeBlock {
                block: CodeBlock::IfVariable,
                args: Some(args),
                action: Some(action),
                data: None,
                attribute: if is_negated { Some(owned("NOT")) } else { None },
                sub_action: None,
                target: None,
            },
            Block::SelectObject { args, action, sub_action, is_negated } => JSONBlock::CodeBlock {
                block: CodeBlock::SelectObject,
                args: Some(args),
                action: Some(action),
                data: None,
                attribute: if is_negated { Some(owned("NOT")) } else { None },
                sub_action: sub_action,
                target: None,
            },
            Block::GameAction { args, action } => JSONBlock::CodeBlock {
                block: CodeBlock::GameAction,
                args: Some(args),
                action: Some(action),
                data: None,
                attribute: None,
                sub_action: None,
                target: None,
            },
            Block::Repeat { args, action, sub_action, is_negated } => JSONBlock::CodeBlock {
                block: CodeBlock::Repeat,
                args: Some(args),
                action: Some(action),
                data: None,
                attribute: if is_negated { Some(owned("NOT")) } else { None },
                sub_action: sub_action,
                target: None,
            },
            Block::IfGame { args, action, is_negated } => JSONBlock::CodeBlock {
                block: CodeBlock::IfGame,
                args: Some(args),
                action: Some(action),
                data: None,
                attribute: if is_negated { Some(owned("NOT")) } else { None },
                sub_action: None,
                target: None,
            },
            Block::Else => JSONBlock::CodeBlock {
                block: CodeBlock::Else,
                args: None,
                action: None,
                data: None,
                attribute: None,
                sub_action: None,
                target: None,
            },
            Block::Bracket { direction, kind } => JSONBlock::Bracket { direction, kind },
        }
    }
}

impl Block {
    /// Reads a block back from its record. A record that lacks a field its
    /// kind needs (see [`json_complete`]) is not accepted.
    pub fn from_json(json: JSONBlock) -> (r: Block)
        requires
            json_complete(json@),
        ensures
            r@ == json_to_block(json@),
    {
        match json {
            JSONBlock::CodeBlock { block, args, action, data, attribute, sub_action, target } => {
                match block {
                    CodeBlock::PlayerEvent => Block::PlayerEvent { action: action.unwrap(), ls_cancel: attribute.is_some() },
                    CodeBlock::EntityEvent => Block::EntityEvent { action: action.unwrap(), ls_cancel: attribute.is_some() },
                    CodeBlock::Function => Block::Function { args: args.unwrap(), name: data.unwrap() },
                    CodeBlock::Process => Block::Process { args: args.unwrap(), name: data.unwrap() },
                    CodeBlock::PlayerAction => Block::PlayerAction { args: args.unwrap(), action: action.unwrap(), target },
                    CodeBlock::IfPlayer => Block::IfPlayer { args: args.unwrap(), action: action.unwrap(), target, is_negated: attribute.is_some() },
                    CodeBlock::StartProcess => Block::StartProcess { args: args.unwrap(), proc: data.unwrap() },
                    CodeBlock::CallFunction => Block::CallFunction { args: args.unwrap(), func: data.unwrap() },
                    CodeBlock::Control => Block::Control { args: args.unwrap(), action: action.unwrap() },
                    CodeBlock::SetVariable => Block::SetVariable { args: args.unwrap(), action: action.unwrap() },
                    CodeBlock::IfEntity => Block::IfEntity { args: args.unwrap(), action: action.unwrap(), target, is_negated: attribute.is_some() },
                    CodeBlock::EntityAction => Block::EntityAction { args: args.unwrap(), action: action.unwrap(), target },
                    CodeBlock::IfVariable => Block::IfVariable { args: args.unwrap(), action: action.unwrap(), is_negated: attribute.is_some() },
                    CodeBlock::SelectObject => Block::SelectObject { args: args.unwrap(), action: action.unwrap(), sub_action, is_negated: attribute.is_some() },
                    CodeBlock::GameAction => Block::GameAction { args: args.unwrap(), action: action.unwrap() },
                    CodeBlock::Repeat => Block::Repeat { args: args.unwrap(), action: action.unwrap(), sub_action, is_negated: attribute.is_some() },
                    CodeBlock::IfGame => Block::IfGame { args: args.unwrap(), action: action.unwrap(), is_negated: attribute.is_some() },
                    CodeBlock::Else => Block::Else,
                }
            },
            JSONBlock::Bracket { direction, kind } => Block::Bracket { direction, kind },
        }
    }
}

impl JSONArgs {
    /// Lists arguments with their slots.
    pub fn from_args(args: Args) -> (r: JSONArgs)
        ensures
            r@ == args@,
    {
        let Args(v) = args;
        let mut items: Vec<SlottedItem> = Vec::new();
        let mut i: usize = 0;
        while i < v.len()
            invariant
                i <= v.len(),
                items@.len() == i,
                forall|j: int| 0 <= j < i ==> (#[trigger] items@[j]).slot == v@[j].0 && items@[j].item@ == v@[j].1@,
            decreases v.len() - i,
        {
            items.push(SlottedItem { item: clone_item(&v[i].1), slot: v[i].0 });
            i = i + 1;
        }
        let r = JSONArgs { items };
        assert(r@ =~= Args(v)@);
        r
    }
}

impl Args {
    /// Reads arguments back from their listing.
    pub fn from_json(json: JSONArgs) -> (r: Args)
        ensures
            r@ == json@,
    {
        let v = json.items;
        let mut out: Vec<(usize, Item)> = Vec::new();
        let mut i: usize = 0;
        while i < v.len()
            invariant
                i <= v.len(),
                out@.len() == i,
                forall|j: int| 0 <= j < i ==> (#[trigger] out@[j]).0 == v@[j].slot && out@[j].1@ == v@[j].item@,
            decreases v.len() - i,
        {
            out.push((v[i].slot, clone_item(&v[i].item)));
            i = i + 1;
        }
        let r = Args(out);
        assert(r@ =~= (JSONArgs { items: v })@);
        r
    }
}


impl JSONBlock {
    /// Whether the record has the fields its kind of block needs (see [`json_complete`]).
    pub fn is_complete(&self) -> (r: bool)
        ensures
            r == json_complete(self@),
    {
        match self {
            JSONBlock::CodeBlock { block, args, action, data, .. } => match block {
                CodeBlock::PlayerEvent | CodeBlock::EntityEvent => action.is_some(),
                CodeBlock::Function | CodeBlock::Process | CodeBlock::StartProcess | CodeBlock::CallFunction => {
                    args.is_some() && data.is_some()
                },
                CodeBlock::Else => true,
                _ => args.is_some() && action.is_some(),
            },
            JSONBlock::Bracket { .. } => true,
        }
    }
}

} // verus!

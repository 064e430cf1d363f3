//! The DiamondFire template model: a template is a row of code blocks, and
//! each code block carries arguments placed in chest slots.
//!
//! Floating-point coordinates are held as their IEEE-754 bit patterns (`u64`),
//! and the free-form extra data of sounds and particles as pairs of a key and
//! the JSON text of its value.
use vstd::prelude::*;
use crate::text::owned;

verus! {

/// The kind of a code block as it is named in the template data.
#[derive(Debug, Clone, Copy, PartialEq, Eq, Structural)]
pub enum CodeBlock {
    PlayerEvent,
    EntityEvent,
    Function,
    Process,
    PlayerAction,
    IfPlayer,
    StartProcess,
    CallFunction,
    Control,
    SetVariable,
    IfEntity,
    EntityAction,
    IfVariable,
    SelectObject,
    GameAction,
    Repeat,
    IfGame,
    Else,
}

/// The target of an action or a game value.
#[derive(Debug, Clone, Copy, PartialEq, Eq, Structural)]
pub enum Target {
    Selection,
    Default,
    Killer,
    Damager,
    Victim,
    AllPlayers,
    Shooter,
    Projectile,
    AllEntities,
    AllMobs,
    LastEntity,
}

/// The scope of a variable.
#[derive(Debug, Clone, Copy, PartialEq, Eq, Structural)]
pub enum VariableScope {
    Game,
    Saved,
    Local,
    Line,
}

/// The value kind of a function parameter.
#[derive(Debug, Clone, Copy, PartialEq, Eq, Structural)]
pub enum ParamKind {
    Any,
    Dictionary,
    Item,
    Vector,
    Number,
    Particle,
    Potion,
    String,
    Location,
    Text,
    List,
    Sound,
    Variable,
}

/// Whether a bracket opens or closes.
#[derive(Debug, Clone, Copy, PartialEq, Eq, Structural)]
pub enum BracketDirection {
    Open,
    Close,
}

/// Whether a bracket belongs to a plain block or to a repeat.
#[derive(Debug, Clone, Copy, PartialEq, Eq, Structural)]
pub enum BracketKind {
    Normal,
    Repeat,
}

/// A location; each coordinate is the bit pattern of an `f64`.
#[derive(Debug, Clone, Copy, PartialEq, Eq, Structural)]
pub struct Location {
    pub x: u64,
    pub y: u64,
    pub z: u64,
    pub pitch: u64,
    pub yaw: u64,
}

impl Default for Location {
    /// The origin, with no rotation (all coordinates `0.0`).
    fn default() -> (r: Self)
        ensures
            r == (Location { x: 0, y: 0, z: 0, pitch: 0, yaw: 0 }),
    {
        Location { x: 0, y: 0, z: 0, pitch: 0, yaw: 0 }
    }
}

/// A value placed in a slot of a code block.
#[derive(Debug, PartialEq)]
pub enum Item {
    String { name: String },
    Text { name: String },
    Number { name: String },
    Item { item: String },
    Location { is_block: bool, loc: Location },
    /// A vector; each component is the bit pattern of an `f64`.
    Vector { x: u64, y: u64, z: u64 },
    Variable { name: String, scope: VariableScope },
    GameValue { kind: String, target: Target },
    Param {
        name: String,
        kind: ParamKind,
        default_value: Option<Box<Item>>,
        plural: bool,
        optional: bool,
        description: Option<String>,
        note: Option<String>,
    },
    Tag { option: String, tag: String, action: String, block: CodeBlock },
    /// A sound; pitch and volume are `f64` bit patterns, `extra` maps keys to JSON texts.
    Sound { pitch: u64, vol: u64, sound: String, extra: Vec<(String, String)> },
    /// A particle; `extra` maps keys to JSON texts.
    Particle { particle: String, extra: Vec<(String, String)> },
    Potion { potion: String, duration: u32, amplifier: u32 },
}

/// The arguments of a block: items with the slot each is placed in.
#[derive(Debug, Clone, PartialEq)]
pub struct Args(pub Vec<(usize, Item)>);

/// A code block.
#[derive(Debug, Clone, PartialEq)]
pub enum Block {
    PlayerEvent { action: String, ls_cancel: bool },
    EntityEvent { action: String, ls_cancel: bool },
    Function { args: Args, name: String },
    Process { args: Args, name: String },
    PlayerAction { args: Args, action: String, target: Option<Target> },
    IfPlayer { args: Args, action: String, target: Option<Target>, is_negated: bool },
    StartProcess { args: Args, proc: String },
    CallFunction { args: Args, func: String },
    Control { args: Args, action: String },
    SetVariable { args: Args, action: String },
    IfEntity { args: Args, action: String, target: Option<Target>, is_negated: bool },
    EntityAction { args: Args, action: String, target: Option<Target> },
    IfVariable { args: Args, action: String, is_negated: bool },
    SelectObject { args: Args, action: String, sub_action: Option<String>, is_negated: bool },
    GameAction { args: Args, action: String },
    Repeat { args: Args, action: String, sub_action: Option<String>, is_negated: bool },
    IfGame { args: Args, action: String, is_negated: bool },
    Else,
    Bracket { direction: BracketDirection, kind: BracketKind },
}

/// A template: a row of code blocks.
#[derive(Debug, Clone, PartialEq)]
pub struct Template {
    pub blocks: Vec<Block>,
}

// ---------------------------------------------------------------------------
// Mathematical views
// ---------------------------------------------------------------------------

/// The value of an item, with texts as character sequences.
pub enum ItemV {
    String { name: Seq<char> },
    Text { name: Seq<char> },
    Number { name: Seq<char> },
    Item { item: Seq<char> },
    Location { is_block: bool, loc: Location },
    Vector { x: u64, y: u64, z: u64 },
    Variable { name: Seq<char>, scope: VariableScope },
    GameValue { kind: Seq<char>, target: Target },
    Param {
        name: Seq<char>,
        kind: ParamKind,
        default_value: Option<Box<ItemV>>,
        plural: bool,
        optional: bool,
        description: Option<Seq<char>>,
        note: Option<Seq<char>>,
    },
    Tag { option: Seq<char>, tag: Seq<char>, action: Seq<char>, block: CodeBlock },
    Sound { pitch: u64, vol: u64, sound: Seq<char>, extra: Seq<(Seq<char>, Seq<char>)> },
    Particle { particle: Seq<char>, extra: Seq<(Seq<char>, Seq<char>)> },
    Potion { potion: Seq<char>, duration: u32, amplifier: u32 },
}

/// The value of a block's arguments.
pub type ArgsV = Seq<(usize, ItemV)>;

/// The value of a block, with texts as character sequences.
pub enum BlockV {
    PlayerEvent { action: Seq<char>, ls_cancel: bool },
    EntityEvent { action: Seq<char>, ls_cancel: bool },
    Function { args: ArgsV, name: Seq<char> },
    Process { args: ArgsV, name: Seq<char> },
    PlayerAction { args: ArgsV, action: Seq<char>, target: Option<Target> },
    IfPlayer { args: ArgsV, action: Seq<char>, target: Option<Target>, is_negated: bool },
    StartProcess { args: ArgsV, proc: Seq<char> },
    CallFunction { args: ArgsV, func: Seq<char> },
    Control { args: ArgsV, action: Seq<char> },
    SetVariable { args: ArgsV, action: Seq<char> },
    IfEntity { args: ArgsV, action: Seq<char>, target: Option<Target>, is_negated: bool },
    EntityAction { args: ArgsV, action: Seq<char>, target: Option<Target> },
    IfVariable { args: ArgsV, action: Seq<char>, is_negated: bool },
    SelectObject { args: ArgsV, action: Seq<char>, sub_action: Option<Seq<char>>, is_negated: bool },
    GameAction { args: ArgsV, action: Seq<char> },
    Repeat { args: ArgsV, action: Seq<char>, sub_action: Option<Seq<char>>, is_negated: bool },
    IfGame { args: ArgsV, action: Seq<char>, is_negated: bool },
    Else,
    Bracket { direction: BracketDirection, kind: BracketKind },
}

/// The text of an optional string.
pub open spec fn opt_text(o: Option<String>) -> Option<Seq<char>> {
    match o {
        Some(s) => Some(s@),
        None => None,
    }
}

/// The texts of key/value pairs.
pub open spec fn pairs_view(v: Seq<(String, String)>) -> Seq<(Seq<char>, Seq<char>)> {
    v.map_values(|p: (String, String)| (p.0@, p.1@))
}

/// The value of an item.
pub open spec fn item_view(i: Item) -> ItemV
    decreases i,
{
    match i {
        Item::String { name } => ItemV::String { name: name@ },
        Item::Text { name } => ItemV::Text { name: name@ },
        Item::Number { name } => ItemV::Number { name: name@ },
        Item::Item { item } => ItemV::Item { item: item@ },
        Item::Location { is_block, loc } => ItemV::Location { is_block, loc },
        Item::Vector { x, y, z } => ItemV::Vector { x, y, z },
        Item::Variable { name, scope } => ItemV::Variable { name: name@, scope },
        Item::GameValue { kind, target } => ItemV::GameValue { kind: kind@, target },
        Item::Param { name, kind, default_value, plural, optional, description, note } => {
            ItemV::Param {
                name: name@,
                kind,
                default_value: match default_value {
                    Some(b) => Some(Box::new(item_view(*b))),
                    None => None,
                },
                plural,
                optional,
                description: opt_text(description),
                note: opt_text(note),
            }
        },
        Item::Tag { option, tag, action, block } => ItemV::Tag {
            option: option@,
            tag: tag@,
            action: action@,
            block,
        },
        Item::Sound { pitch, vol, sound, extra } => ItemV::Sound {
            pitch,
            vol,
            sound: sound@,
            extra: pairs_view(extra@),
        },
        Item::Particle { particle, extra } => ItemV::Particle {
            particle: particle@,
            extra: pairs_view(extra@),
        },
        Item::Potion { potion, duration, amplifier } => ItemV::Potion {
            potion: potion@,
            duration,
            amplifier,
        },
    }
}

/// A copy of key/value texts.
pub fn clone_pairs(v: &Vec<(String, String)>) -> (r: Vec<(String, String)>)
    ensures
        pairs_view(r@) == pairs_view(v@),
{
    let mut r: Vec<(String, String)> = Vec::new();
    let mut i: usize = 0;
    while i < v.len()
        invariant
            i <= v.len(),
            r@.len() == i,
            pairs_view(r@) == pairs_view(v@.subrange(0, i as int)),
        decreases v.len() - i,
    {
        let ghost old_r = r@;
        let k = v[i].0.clone();
        let x = v[i].1.clone();
        r.push((k, x));
        proof {
            let a = v@.subrange(0, i as int);
            let b = v@.subrange(0, i + 1);
            assert(b =~= a.push(v@[i as int]));
            assert(r@ =~= old_r.push((k, x)));
            assert(pairs_view(b).len() == pairs_view(r@).len());
            assert forall|j: int| 0 <= j < r@.len() implies pairs_view(r@)[j] == pairs_view(b)[j] by {
                if j < old_r.len() {
                    assert(pairs_view(old_r)[j] == pairs_view(a)[j]);
                }
            }
            assert(pairs_view(r@) =~= pairs_view(b));
        }
        i = i + 1;
    }
    assert(v@.subrange(0, v@.len() as int) == v@);
    r
}

/// A copy of an optional text.
pub fn clone_opt_text(o: &Option<String>) -> (r: Option<String>)
    ensures
        opt_text(r) == opt_text(*o),
{
    match o {
        Some(s) => Some(s.clone()),
        None => None,
    }
}

/// A copy of an item.
pub fn clone_item(i: &Item) -> (r: Item)
    ensures
        r@ == i@,
    decreases i,
{
    match i {
        Item::String { name } => Item::String { name: name.clone() },
        Item::Text { name } => Item::Text { name: name.clone() },
        Item::Number { name } => Item::Number { name: name.clone() },
        Item::Item { item } => Item::Item { item: item.clone() },
        Item::Location { is_block, loc } => Item::Location { is_block: *is_block, loc: *loc },
        Item::Vector { x, y, z } => Item::Vector { x: *x, y: *y, z: *z },
        Item::Variable { name, scope } => Item::Variable { name: name.clone(), scope: *scope },
        Item::GameValue { kind, target } => Item::GameValue { kind: kind.clone(), target: *target },
        Item::Param { name, kind, default_value, plural, optional, description, note } => {
            let dv = match default_value {
                Some(b) => Some(Box::new(clone_item(&**b))),
                None => None,
            };
            Item::Param {
                name: name.clone(),
                kind: *kind,
                default_value: dv,
                plural: *plural,
                optional: *optional,
                description: clone_opt_text(description),
                note: clone_opt_text(note),
            }
        },
        Item::Tag { option, tag, action, block } => Item::Tag {
            option: option.clone(),
            tag: tag.clone(),
            action: action.clone(),
            block: *block,
        },
        Item::Sound { pitch, vol, sound, extra } => Item::Sound {
            pitch: *pitch,
            vol: *vol,
            sound: sound.clone(),
            extra: clone_pairs(extra),
        },
        Item::Particle { particle, extra } => Item::Particle {
            particle: particle.clone(),
            extra: clone_pairs(extra),
        },
        Item::Potion { potion, duration, amplifier } => Item::Potion {
            potion: potion.clone(),
            duration: *duration,
            amplifier: *amplifier,
        },
    }
}

impl Clone for Item {
    fn clone(&self) -> (r: Self)
        ensures
            r@ == self@,
    {
        clone_item(self)
    }
}

impl View for Item {
    type V = ItemV;

    open spec fn view(&self) -> ItemV {
        item_view(*self)
    }
}

/// The value of slotted items.
pub open spec fn slots_view(v: Seq<(usize, Item)>) -> ArgsV {
    v.map_values(|p: (usize, Item)| (p.0, item_view(p.1)))
}

impl View for Args {
    type V = ArgsV;

    open spec fn view(&self) -> ArgsV {
        slots_view(self.0@)
    }
}

/// The value of a block.
pub open spec fn block_view(b: Block) -> BlockV {
    match b {
        Block::PlayerEvent { action, ls_cancel } => BlockV::PlayerEvent { action: action@, ls_cancel },
        Block::EntityEvent { action, ls_cancel } => BlockV::EntityEvent { action: action@, ls_cancel },
        Block::Function { args, name } => BlockV::Function { args: args@, name: name@ },
        Block::Process { args, name } => BlockV::Process { args: args@, name: name@ },
        Block::PlayerAction { args, action, target } => BlockV::PlayerAction {
            args: args@,
            action: action@,
            target,
        },
        Block::IfPlayer { args, action, target, is_negated } => BlockV::IfPlayer {
            args: args@,
            action: action@,
            target,
            is_negated,
        },
        Block::StartProcess { args, proc } => BlockV::StartProcess { args: args@, proc: proc@ },
        Block::CallFunction { args, func } => BlockV::CallFunction { args: args@, func: func@ },
        Block::Control { args, action } => BlockV::Control { args: args@, action: action@ },
        Block::SetVariable { args, action } => BlockV::SetVariable { args: args@, action: action@ },
        Block::IfEntity { args, action, target, is_negated } => BlockV::IfEntity {
            args: args@,
            action: action@,
            target,
            is_negated,
        },
        Block::EntityAction { args, action, target } => BlockV::EntityAction {
            args: args@,
            action: action@,
            target,
        },
        Block::IfVariable { args, action, is_negated } => BlockV::IfVariable {
            args: args@,
            action: action@,
            is_negated,
        },
        Block::SelectObject { args, action, sub_action, is_negated } => BlockV::SelectObject {
            args: args@,
            action: action@,
            sub_action: opt_text(sub_action),
            is_negated,
        },
        Block::GameAction { args, action } => BlockV::GameAction { args: args@, action: action@ },
        Block::Repeat { args, action, sub_action, is_negated } => BlockV::Repeat {
            args: args@,
            action: action@,
            sub_action: opt_text(sub_action),
            is_negated,
        },
        Block::IfGame { args, action, is_negated } => BlockV::IfGame {
            args: args@,
            action: action@,
            is_negated,
        },
        Block::Else => BlockV::Else,
        Block::Bracket { direction, kind } => BlockV::Bracket { direction, kind },
    }
}

impl View for Block {
    type V = BlockV;

    open spec fn view(&self) -> BlockV {
        block_view(*self)
    }
}

/// The value of a row of blocks.
pub open spec fn blocks_view(v: Seq<Block>) -> Seq<BlockV> {
    v.map_values(|b: Block| block_view(b))
}

impl View for Template {
    type V = Seq<BlockV>;

    open spec fn view(&self) -> Seq<BlockV> {
        blocks_view(self.blocks@)
    }
}

// ---------------------------------------------------------------------------
// Building items, arguments and templates
// ---------------------------------------------------------------------------

/// Items placed in consecutive slots from slot 0.
pub open spec fn slotted(items: Seq<ItemV>) -> ArgsV {
    Seq::new(items.len(), |i: int| (i as usize, items[i]))
}

/// Items placed in consecutive slots that end at the last slot (27).
pub open spec fn slotted_at_end(items: Seq<ItemV>) -> ArgsV {
    Seq::new(items.len(), |i: int| ((27 - items.len() + i) as usize, items[i]))
}

/// The first `n` elements of `s`, or all of them when there are fewer.
pub open spec fn at_most<A>(s: Seq<A>, n: nat) -> Seq<A> {
    if s.len() <= n {
        s
    } else {
        s.take(n as int)
    }
}

/// The values of a row of items.
pub open spec fn items_view(v: Seq<Item>) -> Seq<ItemV> {
    v.map_values(|i: Item| item_view(i))
}

/// The value of a tag item.
pub open spec fn tag_v(option: Seq<char>, tag: Seq<char>, action: Seq<char>, block: CodeBlock) -> ItemV {
    ItemV::Tag { option, tag, action, block }
}

impl Default for Args {
    /// No arguments.
    fn default() -> (r: Self)
        ensures
            r@ == Seq::<(usize, ItemV)>::empty(),
    {
        Args(Vec::new())
    }
}

impl Args {
    /// The items in consecutive slots from slot 0.
    pub fn with(values: Vec<Item>) -> (r: Self)
        ensures
            r@ == slotted(items_view(values@)),
    {
        let mut out: Vec<(usize, Item)> = Vec::new();
        let mut i: usize = 0;
        while i < values.len()
            invariant
                i <= values.len(),
                out@.len() == i,
                slots_view(out@) == slotted(items_view(values@.subrange(0, i as int))),
            decreases values.len() - i,
        {
            let ghost old_out = out@;
            let it = clone_item(&values[i]);
            out.push((i, it));
            proof {
                let a = values@.subrange(0, i as int);
                let b = values@.subrange(0, i + 1);
                assert(b =~= a.push(values@[i as int]));
                assert(slots_view(out@) =~= slotted(items_view(b))) by {
                    assert forall|j: int| 0 <= j < i + 1 implies slots_view(out@)[j] == slotted(items_view(b))[j] by {
                        if j < i {
                            assert(slots_view(old_out)[j] == slotted(items_view(a))[j]);
                        }
                    }
                }
            }
            i = i + 1;
        }
        assert(values@.subrange(0, values@.len() as int) =~= values@);
        Args(out)
    }

    /// The first 28 items of `args` in slots from slot 0, then the tags in the
    /// slots that end at the last slot (27).
    pub fn with_tags(args: Vec<Item>, tags: Vec<Item>) -> (r: Self)
        requires
            tags.len() <= 27,
        ensures
            r@ == slotted(at_most(items_view(args@), 28)) + slotted_at_end(items_view(tags@)),
    {
        let tags_begin = 27 - tags.len();
        let mut out: Vec<(usize, Item)> = Vec::new();
        let n = if args.len() < 28 { args.len() } else { 28 };
        let ghost av = at_most(items_view(args@), 28);
        let ghost tv = items_view(tags@);
        let mut i: usize = 0;
        while i < n
            invariant
                n <= args.len(),
                n <= 28,
                av == at_most(items_view(args@), 28),
                av.len() == n,
                i <= n,
                out@.len() == i,
                slots_view(out@) == slotted(av).take(i as int),
            decreases n - i,
        {
            let ghost old_out = out@;
            out.push((i, clone_item(&args[i])));
            i = i + 1;
            assert(slots_view(out@) =~= slotted(av).take(i as int)) by {
                assert forall|j: int| 0 <= j < i implies slots_view(out@)[j] == slotted(av).take(i as int)[j] by {
                    if j < i - 1 {
                        assert(slots_view(old_out)[j] == slotted(av).take(i - 1)[j]);
                    }
                }
            }
        }
        let mut k: usize = 0;
        while k < tags.len()
            invariant
                tags_begin == 27 - tags.len(),
                tags.len() <= 27,
                n <= 28,
                tv == items_view(tags@),
                av.len() == n,
                k <= tags.len(),
                out@.len() == n + k,
                slots_view(out@) == slotted(av) + slotted_at_end(tv).take(k as int),
            decreases tags.len() - k,
        {
            let ghost old_out = out@;
            let it = clone_item(&tags[k]);
            out.push((tags_begin + k, it));
            proof {
                assert(tv[k as int] == it@);
                assert(slotted_at_end(tv)[k as int] == ((tags_begin + k) as usize, it@));
                assert(slots_view(out@)[n + k] == ((tags_begin + k) as usize, it@));
            }
            k = k + 1;
            assert(slots_view(out@) =~= slotted(av) + slotted_at_end(tv).take(k as int)) by {
                assert forall|j: int| 0 <= j < n + k implies slots_view(out@)[j] == (slotted(av) + slotted_at_end(tv).take(k as int))[j] by {
                    if j < n + k - 1 {
                        assert(slots_view(old_out)[j] == (slotted(av) + slotted_at_end(tv).take(k - 1))[j]);
                        assert(slots_view(out@)[j] == slots_view(old_out)[j]);
                        if j >= n {
                            assert((slotted(av) + slotted_at_end(tv).take(k - 1))[j] == slotted_at_end(tv)[j - n]);
                            assert((slotted(av) + slotted_at_end(tv).take(k as int))[j] == slotted_at_end(tv)[j - n]);
                        }
                    }
                }
            }
        }
        assert(slotted_at_end(tv).take(tags.len() as int) =~= slotted_at_end(tv));
        Args(out)
    }
}

impl Template {
    /// A template of the given blocks.
    pub fn new(blocks: Vec<Block>) -> (r: Self)
        ensures
            r.blocks == blocks,
    {
        Template { blocks }
    }

    /// Appends a block.
    pub fn add_block(&mut self, block: Block) -> (r: &mut Self)
        ensures
            (*r)@ == old(self)@.push(block@),
            *final(self) == *final(r),
    {
        self.blocks.push(block);
        proof {
            assert(blocks_view(self.blocks@) =~= blocks_view(old(self).blocks@).push(block@));
        }
        self
    }

    /// Appends a set-variable block with the given action.
    pub fn set_var(&mut self, action: &str, args: Args) -> (r: &mut Self)
        ensures
            (*r)@ == old(self)@.push(BlockV::SetVariable { args: args@, action: action@ }),
            *final(self) == *final(r),
    {
        self.add_block(Block::SetVariable { args, action: owned(action) })
    }

    /// Appends a 64-bit `Bitwise` set-variable block: `result = a <op> b`.
    pub fn set_var_bitwise(&mut self, bitwise_op: &str, result: Item, a: Item, b: Item) -> (r: &mut Self)
        ensures
            (*r)@ == old(self)@.push(bitwise_v(bitwise_op@, result@, a@, b@)),
            *final(self) == *final(r),
    {
        let mut args: Vec<Item> = Vec::new();
        args.push(result);
        args.push(a);
        args.push(b);
        let mut tags: Vec<Item> = Vec::new();
        tags.push(Item::Tag {
            option: owned("64-bit"),
            tag: owned("Bit Precision"),
            action: owned("Bitwise"),
            block: CodeBlock::SetVariable,
        });
        tags.push(Item::Tag {
            option: owned(bitwise_op),
            tag: owned("Operator"),
            action: owned("Bitwise"),
            block: CodeBlock::SetVariable,
        });
        proof {
            reveal_strlit("64-bit");
            reveal_strlit("Bit Precision");
            reveal_strlit("Bitwise");
            reveal_strlit("Operator");
            assert(items_view(args@) =~= seq![result@, a@, b@]);
            assert(items_view(tags@) =~= bitwise_tags(bitwise_op@));
        }
        let all = Args::with_tags(args, tags);
        self.set_var("Bitwise", all)
    }

    /// Appends a (not negated) if-variable block.
    pub fn if_var(&mut self, action: &str, args: Args) -> (r: &mut Self)
        ensures
            (*r)@ == old(self)@.push(BlockV::IfVariable { args: args@, action: action@, is_negated: false }),
            *final(self) == *final(r),
    {
        self.add_block(Block::IfVariable { args, action: owned(action), is_negated: false })
    }

    /// Appends an else block.
    pub fn else_block(&mut self) -> (r: &mut Self)
        ensures
            (*r)@ == old(self)@.push(BlockV::Else),
            *final(self) == *final(r),
    {
        self.add_block(Block::Else)
    }

    /// Appends a (not negated) repeat block without a sub-action.
    pub fn repeat(&mut self, action: &str, args: Args) -> (r: &mut Self)
        ensures
            (*r)@ == old(self)@.push(
                BlockV::Repeat { args: args@, action: action@, sub_action: None, is_negated: false },
            ),
            *final(self) == *final(r),
    {
        self.add_block(Block::Repeat { args, action: owned(action), sub_action: None, is_negated: false })
    }

    /// Appends an opening bracket.
    pub fn open_bracket(&mut self) -> (r: &mut Self)
        ensures
            (*r)@ == old(self)@.push(open_v()),
            *final(self) == *final(r),
    {
        self.add_block(Block::Bracket { direction: BracketDirection::Open, kind: BracketKind::Normal })
    }

    /// Appends a closing bracket.
    pub fn close_bracket(&mut self) -> (r: &mut Self)
        ensures
            (*r)@ == old(self)@.push(close_v()),
            *final(self) == *final(r),
    {
        self.add_block(Block::Bracket { direction: BracketDirection::Close, kind: BracketKind::Normal })
    }

    /// Appends an opening repeat bracket.
    pub fn open_bracket_repeat(&mut self) -> (r: &mut Self)
        ensures
            (*r)@ == old(self)@.push(open_repeat_v()),
            *final(self) == *final(r),
    {
        self.add_block(Block::Bracket { direction: BracketDirection::Open, kind: BracketKind::Repeat })
    }

    /// Appends a closing repeat bracket.
    pub fn close_bracket_repeat(&mut self) -> (r: &mut Self)
        ensures
            (*r)@ == old(self)@.push(close_repeat_v()),
            *final(self) == *final(r),
    {
        self.add_block(Block::Bracket { direction: BracketDirection::Close, kind: BracketKind::Repeat })
    }

    /// Appends a control block.
    pub fn control(&mut self, action: &str, args: Args) -> (r: &mut Self)
        ensures
            (*r)@ == old(self)@.push(BlockV::Control { args: args@, action: action@ }),
            *final(self) == *final(r),
    {
        self.add_block(Block::Control { args, action: owned(action) })
    }

    /// Appends a call of the named function.
    pub fn call_function(&mut self, func: &str, args: Args) -> (r: &mut Self)
        ensures
            (*r)@ == old(self)@.push(BlockV::CallFunction { args: args@, func: func@ }),
            *final(self) == *final(r),
    {
        self.add_block(Block::CallFunction { args, func: owned(func) })
    }

    /// Appends a message sent to all players.
    pub fn print(&mut self, args: Args) -> (r: &mut Self)
        ensures
            (*r)@ == old(self)@.push(print_v(args@)),
            *final(self) == *final(r),
    {
        self.add_block(Block::PlayerAction {
            args,
            action: owned("SendMessage"),
            target: Some(Target::AllPlayers),
        })
    }

    /// A template that starts a function with no parameters.
    pub fn start_function(name: &str) -> (r: Self)
        ensures
            r@ == seq![BlockV::Function { args: Seq::empty(), name: name@ }],
    {
        let mut blocks: Vec<Block> = Vec::new();
        blocks.push(Block::Function { args: Args::default(), name: owned(name) });
        let r = Template { blocks };
        assert(r@ =~= seq![BlockV::Function { args: Seq::empty(), name: name@ }]);
        r
    }

    /// A template that starts a function hidden from the function menu.
    pub fn start_function_hidden(name: &str) -> (r: Self)
        ensures
            r@ == seq![BlockV::Function { args: hidden_args(), name: name@ }],
    {
        let mut tags: Vec<Item> = Vec::new();
        tags.push(Item::Tag {
            option: owned("True"),
            tag: owned("Is Hidden"),
            action: owned("dynamic"),
            block: CodeBlock::Function,
        });
        assert(items_view(tags@) =~= seq![hidden_tag()]);
        assert(slotted(Seq::<ItemV>::empty()) =~= Seq::empty());
        let args = Args::with_tags(Vec::new(), tags);
        assert(args@ =~= hidden_args());
        let mut blocks: Vec<Block> = Vec::new();
        blocks.push(Block::Function { args, name: owned(name) });
        let r = Template { blocks };
        assert(r@ =~= seq![BlockV::Function { args: hidden_args(), name: name@ }]);
        r
    }

    /// The name of the function the template starts, if it starts one.
    pub fn get_name(&self) -> (r: Option<String>)
        ensures
            opt_text(r) == template_name(self@),
    {
        if self.blocks.len() == 0 {
            return None;
        }
        match &self.blocks[0] {
            Block::Function { name, .. } => Some(name.clone()),
            _ => None,
        }
    }
}

impl Item {
    /// A number item with the given text.
    pub fn num(name: &str) -> (r: Self)
        ensures
            r@ == (ItemV::Number { name: name@ }),
    {
        Item::Number { name: owned(name) }
    }

    /// A game-scoped variable with the given name.
    pub fn var(kind: &str) -> (r: Self)
        ensures
            r@ == (ItemV::Variable { name: kind@, scope: VariableScope::Game }),
    {
        Item::Variable { name: owned(kind), scope: VariableScope::Game }
    }

    /// A string item.
    pub fn string(name: &str) -> (r: Self)
        ensures
            r@ == (ItemV::String { name: name@ }),
    {
        Item::String { name: owned(name) }
    }
}

/// The name of the function a row of blocks starts with, if it starts with one.
pub open spec fn template_name(t: Seq<BlockV>) -> Option<Seq<char>> {
    if t.len() > 0 {
        match t[0] {
            BlockV::Function { name, .. } => Some(name),
            _ => None,
        }
    } else {
        None
    }
}

/// The tags of a 64-bit bitwise operation.
pub open spec fn bitwise_tags(op: Seq<char>) -> Seq<ItemV> {
    seq![
        tag_v("64-bit"@, "Bit Precision"@, "Bitwise"@, CodeBlock::SetVariable),
        tag_v(op, "Operator"@, "Bitwise"@, CodeBlock::SetVariable),
    ]
}

/// A 64-bit bitwise set-variable block.
pub open spec fn bitwise_v(op: Seq<char>, result: ItemV, a: ItemV, b: ItemV) -> BlockV {
    BlockV::SetVariable {
        args: slotted(seq![result, a, b]) + slotted_at_end(bitwise_tags(op)),
        action: "Bitwise"@,
    }
}

/// The tag that hides a function.
pub open spec fn hidden_tag() -> ItemV {
    tag_v("True"@, "Is Hidden"@, "dynamic"@, CodeBlock::Function)
}

/// The arguments of a hidden function header.
pub open spec fn hidden_args() -> ArgsV {
    slotted_at_end(seq![hidden_tag()])
}

/// An opening bracket.
pub open spec fn open_v() -> BlockV {
    BlockV::Bracket { direction: BracketDirection::Open, kind: BracketKind::Normal }
}

/// A closing bracket.
pub open spec fn close_v() -> BlockV {
    BlockV::Bracket { direction: BracketDirection::Close, kind: BracketKind::Normal }
}

/// An opening repeat bracket.
pub open spec fn open_repeat_v() -> BlockV {
    BlockV::Bracket { direction: BracketDirection::Open, kind: BracketKind::Repeat }
}

/// A closing repeat bracket.
pub open spec fn close_repeat_v() -> BlockV {
    BlockV::Bracket { direction: BracketDirection::Close, kind: BracketKind::Repeat }
}

/// A message to all players.
pub open spec fn print_v(args: ArgsV) -> BlockV {
    BlockV::PlayerAction { args, action: "SendMessage"@, target: Some(Target::AllPlayers) }
}


} // verus!

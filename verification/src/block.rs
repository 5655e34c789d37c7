//! Blocks, the rules that color them, and the table from block identifier
//! to rule.

use vstd::prelude::*;
use vstd::hash_map::StringHashMap;
use crate::color::{BlockMapColor, MapColor};

verus! {

/// What a block is, mathematically: its identifier and its properties.
pub struct BlockView {
    pub name: Seq<char>,
    pub properties: Map<Seq<char>, Seq<char>>,
}

/// One block state: an identifier such as `minecraft:oak_log` and a
/// string-keyed set of properties such as `axis` = `x`.
pub struct Block {
    name: String,
    properties: StringHashMap<String>,
}

/// The table from block identifier to color rule. It is keyed by the
/// identifier exactly as blocks carry it.
pub struct ColorTable {
    rules: StringHashMap<BlockMapColor>,
}

/// Whether a property is present with exactly the given value.
pub open spec fn has_value(properties: Map<Seq<char>, Seq<char>>, key: Seq<char>, value: Seq<char>) -> bool {
    properties.contains_key(key) && properties[key] == value
}

/// Whether the properties mark a block as waterlogged.
pub open spec fn waterlogged(properties: Map<Seq<char>, Seq<char>>) -> bool {
    has_value(properties, "waterlogged"@, "true"@)
}

/// The color a block contributes under a table: none when the table does
/// not know the block, else what the block's rule selects.
pub open spec fn block_color(table: Map<Seq<char>, BlockMapColor>, block: BlockView) -> Option<MapColor> {
    if table.contains_key(block.name) {
        Some(table[block.name].select(block.properties))
    } else {
        None
    }
}

/// Whether a block counts as water when a water column's depth is
/// measured: the table knows it, and it is drawn water blue or is
/// waterlogged.
pub open spec fn counts_as_water(table: Map<Seq<char>, BlockMapColor>, block: BlockView) -> bool {
    block_color(table, block) matches Some(color) && (color == MapColor::WaterBlue || waterlogged(block.properties))
}

impl BlockMapColor {
    /// The color that this rule selects for a block with the given
    /// properties. Only the block's own properties are consulted.
    pub open spec fn select(self, properties: Map<Seq<char>, Seq<char>>) -> MapColor {
        match self {
            BlockMapColor::Single(color) => color,
            BlockMapColor::Bed { head, foot } => if has_value(properties, "part"@, "head"@) {
                head
            } else {
                foot
            },
            BlockMapColor::Crops { growing, grown } => if has_value(properties, "age"@, "7"@) {
                grown
            } else {
                growing
            },
            BlockMapColor::Pillar { top, side } => if properties.contains_key("axis"@) && properties["axis"@] != "y"@ {
                side
            } else {
                top
            },
            BlockMapColor::Waterloggable { dry, wet } => if waterlogged(properties) {
                wet
            } else {
                dry
            },
        }
    }

    /// Reduces this rule against a block's properties to a concrete color.
    pub fn resolve(&self, block: &Block) -> (color: MapColor)
        ensures
            color == self.select(block@.properties),
    {
        match *self {
            BlockMapColor::Single(color) => color,
            BlockMapColor::Bed { head, foot } => if block.property_is("part", "head") {
                head
            } else {
                foot
            },
            BlockMapColor::Crops { growing, grown } => if block.property_is("age", "7") {
                grown
            } else {
                growing
            },
            BlockMapColor::Pillar { top, side } => if block.has_property("axis") && !block.property_is("axis", "y") {
                side
            } else {
                top
            },
            BlockMapColor::Waterloggable { dry, wet } => if block.property_is("waterlogged", "true") {
                wet
            } else {
                dry
            },
        }
    }
}

impl View for Block {
    type V = BlockView;

    closed spec fn view(&self) -> BlockView {
        BlockView {
            name: self.name@,
            properties: Map::new(
                |key: Seq<char>| self.properties@.contains_key(key),
                |key: Seq<char>| self.properties@[key]@,
            ),
        }
    }
}

impl Block {
    /// A block with the given identifier and no properties.
    pub fn new(name: &str) -> (block: Block)
        ensures
            block@.name == name@,
            block@.properties == Map::<Seq<char>, Seq<char>>::empty(),
    {
        let block = Block { name: name.to_owned(), properties: StringHashMap::new() };
        assert(block@.properties =~= Map::<Seq<char>, Seq<char>>::empty());
        block
    }

    /// Sets one property, replacing an earlier value of the same key.
    pub fn set_property(&mut self, key: &str, value: &str)
        ensures
            final(self)@.name == old(self)@.name,
            final(self)@.properties == old(self)@.properties.insert(key@, value@),
    {
        self.properties.insert(key.to_owned(), value.to_owned());
        assert(self@.properties =~= old(self)@.properties.insert(key@, value@));
    }

    /// The block's identifier.
    pub fn name(&self) -> (name: &str)
        ensures
            name@ == self@.name,
    {
        self.name.as_str()
    }

    /// Whether the block carries the property at all.
    pub fn has_property(&self, key: &str) -> (present: bool)
        ensures
            present == self@.properties.contains_key(key@),
    {
        self.properties.contains_key(key)
    }

    /// Whether the block carries the property with exactly this value.
    pub fn property_is(&self, key: &str, value: &str) -> (holds: bool)
        ensures
            holds == has_value(self@.properties, key@, value@),
    {
        match self.properties.get(key) {
            Some(found) => {
                let wanted: String = value.to_owned();
                *found == wanted
            },
            None => false,
        }
    }

    /// Whether the block is waterlogged.
    pub fn is_waterlogged(&self) -> (wet: bool)
        ensures
            wet == waterlogged(self@.properties),
    {
        self.property_is("waterlogged", "true")
    }
}

impl View for ColorTable {
    type V = Map<Seq<char>, BlockMapColor>;

    closed spec fn view(&self) -> Map<Seq<char>, BlockMapColor> {
        self.rules@
    }
}

impl ColorTable {
    /// A table that knows no block.
    pub fn new() -> (table: ColorTable)
        ensures
            table@ == Map::<Seq<char>, BlockMapColor>::empty(),
    {
        ColorTable { rules: StringHashMap::new() }
    }

    /// Gives a block identifier its rule, replacing an earlier one.
    pub fn insert(&mut self, name: &str, rule: BlockMapColor)
        ensures
            final(self)@ == old(self)@.insert(name@, rule),
    {
        self.rules.insert(name.to_owned(), rule);
    }

    /// The rule of a block identifier, if the table knows it.
    pub fn get(&self, name: &str) -> (rule: Option<BlockMapColor>)
        ensures
            rule == (if self@.contains_key(name@) {
                Some(self@[name@])
            } else {
                None
            }),
    {
        match self.rules.get(name) {
            Some(rule) => Some(*rule),
            None => None,
        }
    }

    /// The color that a block contributes: `None` for a block that the
    /// table does not know.
    pub fn color_of(&self, block: &Block) -> (color: Option<MapColor>)
        ensures
            color == block_color(self@, block@),
    {
        match self.get(block.name()) {
            Some(rule) => Some(rule.resolve(block)),
            None => None,
        }
    }

    /// Whether a block counts as water for depth shading.
    pub fn counts_as_water(&self, block: &Block) -> (water: bool)
        ensures
            water == counts_as_water(self@, block@),
    {
        match self.color_of(block) {
            Some(color) => color == MapColor::WaterBlue || block.is_waterlogged(),
            None => false,
        }
    }
}

} // verus!

//! The syntax tree of configuration declarations, as the parser hands it over.
//!
//! Every node records the token span it was parsed from; the printer finds the
//! fixed keywords around a node at constant offsets from those spans.
use crate::token::TokenSpan;
use vstd::prelude::*;

verus! {

/// A single identifier, by the id of its token.
#[derive(Clone, Copy, Debug, PartialEq, Eq, Structural)]
pub struct Ident {
    pub token: usize,
}

/// A (possibly selected, indexed or sliced) name, by the tokens it spans.
#[derive(Clone, Copy, Debug, PartialEq, Eq, Structural)]
pub struct Name {
    pub span: TokenSpan,
}

/// A generic map or port map aspect, by the tokens it spans.
#[derive(Clone, Copy, Debug, PartialEq, Eq, Structural)]
pub struct MapAspect {
    pub span: TokenSpan,
}

/// A use clause, by the tokens it spans.
#[derive(Clone, Copy, Debug, PartialEq, Eq, Structural)]
pub struct UseClause {
    pub span: TokenSpan,
}

/// A library, use or context reference clause before a design unit.
#[derive(Clone, Copy, Debug, PartialEq, Eq, Structural)]
pub struct ContextItem {
    pub span: TokenSpan,
}

/// An item of a configuration's declarative part (use clause, attribute
/// specification, group declaration), by the tokens it spans.
#[derive(Clone, Copy, Debug, PartialEq, Eq, Structural)]
pub struct Declaration {
    pub span: TokenSpan,
}

/// The instances a component specification applies to.
#[derive(Clone, Debug)]
pub enum InstantiationList {
    Labels(Vec<Ident>),
    Others,
    All,
}

/// `for <instances> : <component name>`
#[derive(Clone, Debug)]
pub struct ComponentSpecification {
    pub span: TokenSpan,
    pub instantiation_list: InstantiationList,
    pub colon_token: usize,
    pub component_name: Name,
}

/// What a binding indication binds to.
#[derive(Clone, Copy, Debug)]
pub enum EntityAspect {
    /// `entity <name> [(<architecture>)]`
    Entity(Name, Option<Ident>),
    /// `configuration <name>`
    Configuration(Name),
    /// `open`
    Open,
}

/// `use [<entity aspect>] [<generic map>] [<port map>];`
#[derive(Clone, Copy, Debug)]
pub struct BindingIndication {
    pub span: TokenSpan,
    pub entity_aspect: Option<EntityAspect>,
    pub generic_map: Option<MapAspect>,
    pub port_map: Option<MapAspect>,
}

/// `use vunit <name> {, <name>};`
#[derive(Clone, Debug)]
pub struct VUnitBindingIndication {
    pub span: TokenSpan,
    pub vunit_list: Vec<Name>,
}

/// `for <component specification> ... end for;` inside a block configuration.
#[derive(Debug)]
pub struct ComponentConfiguration {
    pub span: TokenSpan,
    pub spec: ComponentSpecification,
    pub bind_ind: Option<BindingIndication>,
    pub vunit_bind_inds: Vec<VUnitBindingIndication>,
    pub block_config: Option<BlockConfiguration>,
}

/// One item of a block configuration, in source order.
#[derive(Debug)]
pub enum ConfigurationItem {
    Block(BlockConfiguration),
    Component(ComponentConfiguration),
}

/// `for <block specification> ... end for;`
#[derive(Debug)]
pub struct BlockConfiguration {
    pub span: TokenSpan,
    pub block_spec: Name,
    pub use_clauses: Vec<UseClause>,
    pub items: Vec<ConfigurationItem>,
}

/// `configuration <name> of <entity> is ... end [configuration] [<name>];`
#[derive(Debug)]
pub struct ConfigurationDeclaration {
    pub span: TokenSpan,
    pub context_clause: Vec<ContextItem>,
    pub ident: Ident,
    pub entity_name: Name,
    pub decl: Vec<Declaration>,
    pub vunit_bind_inds: Vec<VUnitBindingIndication>,
    pub block_config: BlockConfiguration,
    /// The `end` keyword that opens the closing line.
    pub end_token: usize,
}

/// `for <component specification> <binding indication> ... [end for;]`
/// outside a block configuration.
#[derive(Clone, Debug)]
pub struct ConfigurationSpecification {
    pub span: TokenSpan,
    pub spec: ComponentSpecification,
    pub bind_ind: BindingIndication,
    pub vunit_bind_inds: Vec<VUnitBindingIndication>,
    /// The `end` of an optional closing `end for;`.
    pub end_token: Option<usize>,
}

} // verus!

//! What each printer appends to the buffer: the canonical text of a node,
//! given the token stream and the indentation level the node starts at, and
//! the conditions under which a node can be printed.
use crate::ast::{
    BindingIndication, BlockConfiguration, ComponentConfiguration, ComponentSpecification,
    ConfigurationDeclaration, ConfigurationItem, ConfigurationSpecification, ContextItem,
    Declaration, EntityAspect, Ident, InstantiationList, MapAspect, Name, VUnitBindingIndication,
};
use crate::buffer::brk;
use crate::token::{comma_after, span_in, span_text, tok_text, Token, TokenSpan};
use vstd::prelude::*;

verus! {

pub open spec fn tok(toks: Seq<Token>, i: int) -> Seq<char> {
    tok_text(toks, i)
}

pub open spec fn sp() -> Seq<char> {
    seq![' ']
}

pub open spec fn name_text(toks: Seq<Token>, n: Name) -> Seq<char> {
    span_text(toks, n.span.start_token as int, n.span.end_token as int)
}

/// The comma that follows token `i` in source, and a space, or nothing.
pub open spec fn comma_text(toks: Seq<Token>, i: int) -> Seq<char> {
    if comma_after(toks, i) {
        tok(toks, i + 1) + sp()
    } else {
        seq![]
    }
}

/// The first `n` labels, each followed by its source comma, if any.
pub open spec fn labels_text(toks: Seq<Token>, ls: Seq<Ident>, n: int) -> Seq<char>
    decreases n,
{
    if n <= 0 {
        seq![]
    } else {
        labels_text(toks, ls, n - 1) + tok(toks, ls[n - 1].token as int) + comma_text(
            toks,
            ls[n - 1].token as int,
        )
    }
}

/// The first `n` verification-unit names, each followed by its source comma, if any.
pub open spec fn vunit_names_text(toks: Seq<Token>, ns: Seq<Name>, n: int) -> Seq<char>
    decreases n,
{
    if n <= 0 {
        seq![]
    } else {
        vunit_names_text(toks, ns, n - 1) + name_text(toks, ns[n - 1]) + comma_text(
            toks,
            ns[n - 1].span.end_token as int,
        )
    }
}

/// `use vunit a, b;`
pub open spec fn vunit_text(toks: Seq<Token>, v: VUnitBindingIndication) -> Seq<char> {
    tok(toks, v.span.start_token as int) + sp() + tok(toks, v.span.start_token + 1) + sp()
        + vunit_names_text(toks, v.vunit_list@, v.vunit_list@.len() as int) + tok(
        toks,
        v.span.end_token as int,
    )
}

/// The first `n` verification-unit bindings, each on a new line at `level`.
pub open spec fn vunits_text(
    toks: Seq<Token>,
    vs: Seq<VUnitBindingIndication>,
    n: int,
    level: nat,
) -> Seq<char>
    decreases n,
{
    if n <= 0 {
        seq![]
    } else {
        vunits_text(toks, vs, n - 1, level) + brk(level) + vunit_text(toks, vs[n - 1])
    }
}

pub open spec fn all_vunits_text(
    toks: Seq<Token>,
    vs: Seq<VUnitBindingIndication>,
    level: nat,
) -> Seq<char> {
    vunits_text(toks, vs, vs.len() as int, level)
}

/// `for a, b: lib.comp`, `for all: lib.comp`, `for others: lib.comp`
pub open spec fn comp_spec_text(toks: Seq<Token>, s: ComponentSpecification) -> Seq<char> {
    tok(toks, s.span.start_token as int) + sp() + match s.instantiation_list {
        InstantiationList::Labels(ls) => labels_text(toks, ls@, ls@.len() as int),
        _ => tok(toks, s.span.start_token + 1),
    } + tok(toks, s.colon_token as int) + sp() + name_text(toks, s.component_name)
}

/// The aspect keyword and what it names, after the `use` at `use_token`.
pub open spec fn aspect_text(toks: Seq<Token>, use_token: int, a: EntityAspect) -> Seq<char> {
    sp() + tok(toks, use_token + 1) + match a {
        EntityAspect::Entity(n, arch) => sp() + name_text(toks, n) + match arch {
            Some(id) => tok(toks, id.token - 1) + tok(toks, id.token as int) + tok(
                toks,
                id.token + 1,
            ),
            None => seq![],
        },
        EntityAspect::Configuration(n) => sp() + name_text(toks, n),
        EntityAspect::Open => seq![],
    }
}

/// An optional map aspect on a line of its own, one level deeper than `level`.
pub open spec fn map_text(toks: Seq<Token>, m: Option<MapAspect>, level: nat) -> Seq<char> {
    match m {
        Some(m) => brk(level + 1) + span_text(
            toks,
            m.span.start_token as int,
            m.span.end_token as int,
        ),
        None => seq![],
    }
}

/// `use entity lib.ent(arch)` with its maps and the closing `;`.
pub open spec fn binding_text(toks: Seq<Token>, b: BindingIndication, level: nat) -> Seq<char> {
    tok(toks, b.span.start_token as int) + match b.entity_aspect {
        Some(a) => aspect_text(toks, b.span.start_token as int, a),
        None => seq![],
    } + map_text(toks, b.generic_map, level) + map_text(toks, b.port_map, level) + tok(
        toks,
        b.span.end_token as int,
    )
}

/// `end for;`, the last three tokens of `span`.
pub open spec fn end_for_text(toks: Seq<Token>, span: TokenSpan) -> Seq<char> {
    tok(toks, span.end_token - 2) + sp() + tok(toks, span.end_token - 1) + tok(
        toks,
        span.end_token as int,
    )
}

/// A block configuration that starts at indentation `level`.
pub open spec fn block_text(toks: Seq<Token>, b: BlockConfiguration, level: nat) -> Seq<char>
    decreases b,
{
    tok(toks, b.span.start_token as int) + sp() + name_text(toks, b.block_spec) + items_text(
        toks,
        b.items@,
        level + 1,
    ) + brk(level) + end_for_text(toks, b.span)
}

/// Configuration items, each on a new line at `level`.
pub open spec fn items_text(toks: Seq<Token>, items: Seq<ConfigurationItem>, level: nat) -> Seq<
    char,
>
    decreases items,
{
    if items.len() == 0 {
        seq![]
    } else {
        items_text(toks, items.drop_last(), level) + brk(level) + item_text(
            toks,
            items.last(),
            level,
        )
    }
}

pub open spec fn item_text(toks: Seq<Token>, item: ConfigurationItem, level: nat) -> Seq<char>
    decreases item,
{
    match item {
        ConfigurationItem::Block(b) => block_text(toks, b, level),
        ConfigurationItem::Component(c) => comp_config_text(toks, c, level),
    }
}

/// A component configuration that starts at indentation `level`.
pub open spec fn comp_config_text(
    toks: Seq<Token>,
    c: ComponentConfiguration,
    level: nat,
) -> Seq<char>
    decreases c,
{
    comp_spec_text(toks, c.spec) + binding_part(toks, c.bind_ind, level) + all_vunits_text(
        toks,
        c.vunit_bind_inds@,
        level + 1,
    ) + block_part(toks, c.block_config, level) + brk(level) + end_for_text(toks, c.span)
}

/// A component configuration's optional nested block, on a new line one level deeper.
pub open spec fn block_part(toks: Seq<Token>, b: Option<BlockConfiguration>, level: nat) -> Seq<
    char,
>
    decreases b,
{
    match b {
        Some(b) => brk(level + 1) + block_text(toks, b, level + 1),
        None => seq![],
    }
}

/// A component configuration's optional binding, on a new line one level deeper.
pub open spec fn binding_part(toks: Seq<Token>, b: Option<BindingIndication>, level: nat) -> Seq<
    char,
> {
    match b {
        Some(b) => brk(level + 1) + binding_text(toks, b, level + 1),
        None => seq![],
    }
}

/// Context items, each followed by a line break at `level`.
pub open spec fn context_text(toks: Seq<Token>, cs: Seq<ContextItem>, n: int, level: nat) -> Seq<
    char,
>
    decreases n,
{
    if n <= 0 {
        seq![]
    } else {
        context_text(toks, cs, n - 1, level) + span_text(
            toks,
            cs[n - 1].span.start_token as int,
            cs[n - 1].span.end_token as int,
        ) + brk(level)
    }
}

/// Declarations, each on a new line at `level`.
pub open spec fn decls_text(toks: Seq<Token>, ds: Seq<Declaration>, n: int, level: nat) -> Seq<
    char,
>
    decreases n,
{
    if n <= 0 {
        seq![]
    } else {
        decls_text(toks, ds, n - 1, level) + brk(level) + span_text(
            toks,
            ds[n - 1].span.start_token as int,
            ds[n - 1].span.end_token as int,
        )
    }
}

/// A configuration declaration whose first line starts at indentation `level`.
pub open spec fn config_text(toks: Seq<Token>, c: ConfigurationDeclaration, level: nat) -> Seq<
    char,
> {
    context_text(toks, c.context_clause@, c.context_clause@.len() as int, level) + span_text(
        toks,
        c.span.start_token as int,
        c.span.start_token + 4,
    ) + decls_text(toks, c.decl@, c.decl@.len() as int, level + 1) + all_vunits_text(
        toks,
        c.vunit_bind_inds@,
        level + 1,
    ) + brk(level + 1) + block_text(toks, c.block_config, level + 1) + brk(level) + closing_text(
        toks,
        c,
    )
}

/// `end [configuration] [<name>];` as the source wrote it.
pub open spec fn closing_text(toks: Seq<Token>, c: ConfigurationDeclaration) -> Seq<char> {
    span_text(toks, c.end_token as int, c.span.end_token - 1) + tok(toks, c.span.end_token as int)
}

/// The optional `end for;` of a configuration specification.
pub open spec fn spec_end_text(toks: Seq<Token>, c: ConfigurationSpecification, level: nat) -> Seq<
    char,
> {
    match c.end_token {
        Some(e) => brk(level) + tok(toks, e as int) + sp() + tok(toks, e + 1) + tok(
            toks,
            c.span.end_token as int,
        ),
        None => seq![],
    }
}

/// A configuration specification that starts at indentation `level`.
pub open spec fn config_spec_text(
    toks: Seq<Token>,
    c: ConfigurationSpecification,
    level: nat,
) -> Seq<char> {
    config_spec_body(toks, c, level) + spec_end_text(toks, c, level)
}

/// A configuration specification without its optional `end for;`.
pub open spec fn config_spec_body(
    toks: Seq<Token>,
    c: ConfigurationSpecification,
    level: nat,
) -> Seq<char> {
    comp_spec_text(toks, c.spec) + brk(level + 1) + binding_text(toks, c.bind_ind, level + 1)
        + all_vunits_text(toks, c.vunit_bind_inds@, level + 1)
}

// ---- the conditions under which a node can be printed ----
//
// Each names only tokens inside the stream, and keeps the indentation that
// printing reaches below `usize::MAX`.
pub open spec fn name_in(toks: Seq<Token>, n: Name) -> bool {
    span_in(toks, n.span)
}

pub open spec fn wf_vunit(toks: Seq<Token>, v: VUnitBindingIndication) -> bool {
    &&& v.span.start_token + 1 < toks.len()
    &&& v.span.end_token < toks.len()
    &&& forall|i: int| 0 <= i < v.vunit_list@.len() ==> name_in(toks, #[trigger] v.vunit_list@[i])
}

pub open spec fn wf_vunits(toks: Seq<Token>, vs: Seq<VUnitBindingIndication>) -> bool {
    forall|i: int| 0 <= i < vs.len() ==> wf_vunit(toks, #[trigger] vs[i])
}

pub open spec fn wf_labels(toks: Seq<Token>, ls: Seq<Ident>) -> bool {
    forall|i: int| 0 <= i < ls.len() ==> (#[trigger] ls[i]).token < toks.len()
}

pub open spec fn wf_comp_spec(toks: Seq<Token>, s: ComponentSpecification) -> bool {
    &&& s.span.start_token + 1 < toks.len()
    &&& s.colon_token < toks.len()
    &&& name_in(toks, s.component_name)
    &&& match s.instantiation_list {
        InstantiationList::Labels(ls) => wf_labels(toks, ls@),
        _ => true,
    }
}

pub open spec fn wf_map(toks: Seq<Token>, m: Option<MapAspect>) -> bool {
    match m {
        Some(m) => span_in(toks, m.span),
        None => true,
    }
}

pub open spec fn wf_aspect(toks: Seq<Token>, use_token: int, a: EntityAspect) -> bool {
    &&& use_token + 1 < toks.len()
    &&& match a {
        EntityAspect::Entity(n, arch) => name_in(toks, n) && match arch {
            Some(id) => 1 <= id.token && id.token + 1 < toks.len(),
            None => true,
        },
        EntityAspect::Configuration(n) => name_in(toks, n),
        EntityAspect::Open => true,
    }
}

pub open spec fn wf_binding(toks: Seq<Token>, b: BindingIndication, level: nat) -> bool {
    &&& level < usize::MAX
    &&& b.span.start_token < toks.len()
    &&& b.span.end_token < toks.len()
    &&& match b.entity_aspect {
        Some(a) => wf_aspect(toks, b.span.start_token as int, a),
        None => true,
    }
    &&& wf_map(toks, b.generic_map)
    &&& wf_map(toks, b.port_map)
}

/// The span ends in three tokens `end for ;`.
pub open spec fn wf_end_for(toks: Seq<Token>, span: TokenSpan) -> bool {
    2 <= span.end_token < toks.len()
}

/// A block configuration printable at `level`. Block-scoped use clauses are
/// not supported by the printer, so the block must have none.
pub open spec fn wf_block(toks: Seq<Token>, b: BlockConfiguration, level: nat) -> bool
    decreases b,
{
    &&& level < usize::MAX
    &&& b.use_clauses@.len() == 0
    &&& b.span.start_token < toks.len()
    &&& name_in(toks, b.block_spec)
    &&& wf_end_for(toks, b.span)
    &&& wf_items(toks, b.items@, level + 1)
}

pub open spec fn wf_items(toks: Seq<Token>, items: Seq<ConfigurationItem>, level: nat) -> bool
    decreases items,
{
    if items.len() == 0 {
        true
    } else {
        wf_items(toks, items.drop_last(), level) && wf_item(toks, items.last(), level)
    }
}

pub open spec fn wf_item(toks: Seq<Token>, item: ConfigurationItem, level: nat) -> bool
    decreases item,
{
    match item {
        ConfigurationItem::Block(b) => wf_block(toks, b, level),
        ConfigurationItem::Component(c) => wf_comp(toks, c, level),
    }
}

pub open spec fn wf_comp(toks: Seq<Token>, c: ComponentConfiguration, level: nat) -> bool
    decreases c,
{
    &&& level < usize::MAX
    &&& wf_comp_spec(toks, c.spec)
    &&& match c.bind_ind {
        Some(b) => wf_binding(toks, b, level + 1),
        None => true,
    }
    &&& wf_vunits(toks, c.vunit_bind_inds@)
    &&& match c.block_config {
        Some(b) => wf_block(toks, b, level + 1),
        None => true,
    }
    &&& wf_end_for(toks, c.span)
}

pub open spec fn wf_config(toks: Seq<Token>, c: ConfigurationDeclaration, level: nat) -> bool {
    &&& level < usize::MAX
    &&& forall|i: int|
        0 <= i < c.context_clause@.len() ==> span_in(toks, (#[trigger] c.context_clause@[i]).span)
    &&& c.span.start_token + 4 < toks.len()
    &&& forall|i: int| 0 <= i < c.decl@.len() ==> span_in(toks, (#[trigger] c.decl@[i]).span)
    &&& wf_vunits(toks, c.vunit_bind_inds@)
    &&& wf_block(toks, c.block_config, level + 1)
    &&& c.end_token < c.span.end_token < toks.len()
}

pub open spec fn wf_config_spec(toks: Seq<Token>, c: ConfigurationSpecification, level: nat) -> bool {
    &&& level < usize::MAX
    &&& wf_comp_spec(toks, c.spec)
    &&& wf_binding(toks, c.bind_ind, level + 1)
    &&& wf_vunits(toks, c.vunit_bind_inds@)
    &&& c.span.end_token < toks.len()
    &&& match c.end_token {
        Some(e) => e + 1 < toks.len(),
        None => true,
    }
}

/// Each item of a printable sequence is printable.
pub proof fn lemma_wf_items_index(toks: Seq<Token>, items: Seq<ConfigurationItem>, level: nat, i: int)
    requires
        wf_items(toks, items, level),
        0 <= i < items.len(),
    ensures
        wf_item(toks, items[i], level),
    decreases items.len(),
{
    if i < items.len() - 1 {
        lemma_wf_items_index(toks, items.drop_last(), level, i);
    }
}

} // verus!

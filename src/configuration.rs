//! Printers for configuration declarations and the constructs inside them.
use crate::ast::{
    BindingIndication, BlockConfiguration, ComponentConfiguration, ComponentSpecification,
    ConfigurationDeclaration, ConfigurationItem, ConfigurationSpecification, EntityAspect,
    InstantiationList, VUnitBindingIndication,
};
use crate::buffer::{brk, Buffer};
use crate::formatter::VHDLFormatter;
use crate::layout::{
    all_vunits_text, aspect_text, binding_part, binding_text, block_part, block_text,
    comp_config_text, comp_spec_text, config_spec_text, config_text, end_for_text, item_text,
    items_text, lemma_wf_items_index, map_text, name_in, spec_end_text, vunit_names_text,
    vunit_text, vunits_text, wf_binding, wf_block, wf_comp, wf_comp_spec, wf_config,
    wf_config_spec, wf_vunit, wf_vunits,
};
use crate::token::TokenSpan;
use vstd::prelude::*;

verus! {

impl<'a> VHDLFormatter<'a> {
    /// `configuration <name> of <entity> is`, its declarations, verification-unit
    /// bindings and root block, one level deeper, then the closing line as the
    /// source wrote it.
    #[verifier::rlimit(60)]
    pub fn format_configuration(&self, configuration: &ConfigurationDeclaration, buffer: &mut Buffer)
        requires
            wf_config(self.toks(), *configuration, old(buffer).level()),
        ensures
            final(buffer).text() == old(buffer).text() + config_text(
                self.toks(),
                *configuration,
                old(buffer).level(),
            ),
            final(buffer).level() == old(buffer).level(),
    {
        // The stream's length is a usize, so the token offsets below cannot overflow.
        let n: usize = self.tokens.len();
        let ghost toks = self.toks();
        let ghost level = old(buffer).level();
        self.format_context_clause(&configuration.context_clause, buffer);
        // configuration cfg of entity_name is
        self.format_token_span(
            TokenSpan::new(configuration.span.start_token, configuration.span.start_token + 4),
            buffer,
        );
        buffer.increase_indent();
        self.format_declarations(&configuration.decl, buffer);
        self.format_v_unit_binding_indications(configuration.vunit_bind_inds.as_slice(), buffer);
        buffer.line_break();
        self.format_block_configuration(&configuration.block_config, buffer);
        buffer.decrease_indent();
        buffer.line_break();
        self.format_token_span(
            TokenSpan::new(configuration.end_token, configuration.span.end_token - 1),
            buffer,
        );
        self.format_token_id(configuration.span.end_token, buffer);
        assert(buffer.text() =~= old(buffer).text() + config_text(toks, *configuration, level));
    }

    /// Each verification-unit binding on a new line.
    pub fn format_v_unit_binding_indications(
        &self,
        v_units: &[VUnitBindingIndication],
        buffer: &mut Buffer,
    )
        requires
            wf_vunits(self.toks(), v_units@),
        ensures
            final(buffer).text() == old(buffer).text() + all_vunits_text(
                self.toks(),
                v_units@,
                old(buffer).level(),
            ),
            final(buffer).level() == old(buffer).level(),
    {
        let ghost toks = self.toks();
        let ghost level = old(buffer).level();
        let mut i: usize = 0;
        assert(old(buffer).text() =~= old(buffer).text() + vunits_text(toks, v_units@, 0, level));
        while i < v_units.len()
            invariant
                i <= v_units@.len(),
                toks == self.toks(),
                wf_vunits(toks, v_units@),
                buffer.text() == old(buffer).text() + vunits_text(toks, v_units@, i as int, level),
                buffer.level() == level,
            decreases v_units@.len() - i,
        {
            assert(wf_vunit(toks, v_units@[i as int]));
            buffer.line_break();
            self.format_v_unit_indication(&v_units[i], buffer);
            i = i + 1;
            assert(buffer.text() =~= old(buffer).text() + vunits_text(
                toks,
                v_units@,
                i as int,
                level,
            ));
        }
    }

    /// `for <block spec>`, each item on a new line one level deeper, then `end for;`.
    pub fn format_block_configuration(&self, config: &BlockConfiguration, buffer: &mut Buffer)
        requires
            wf_block(self.toks(), *config, old(buffer).level()),
        ensures
            final(buffer).text() == old(buffer).text() + block_text(
                self.toks(),
                *config,
                old(buffer).level(),
            ),
            final(buffer).level() == old(buffer).level(),
        decreases config,
    {
        let ghost toks = self.toks();
        let ghost level = old(buffer).level();
        if config.use_clauses.len() != 0 {
            // Block-scoped use clauses are not supported: the precondition
            // rules them out, and a caller that ignores it stops here.
            vstd::pervasive::unreached::<()>();
        }
        // for
        self.format_token_id(config.span.start_token, buffer);
        buffer.push_whitespace();
        self.format_name(&config.block_spec, buffer);
        let ghost t1 = buffer.text();
        buffer.increase_indent();
        let mut i: usize = 0;
        assert(t1 =~= t1 + items_text(toks, config.items@.subrange(0, 0), level + 1));
        while i < config.items.len()
            invariant
                i <= config.items@.len(),
                toks == self.toks(),
                wf_block(toks, *config, level),
                buffer.text() == t1 + items_text(toks, config.items@.subrange(0, i as int), level + 1),
                buffer.level() == level + 1,
            decreases config.items@.len() - i,
        {
            proof {
                lemma_wf_items_index(toks, config.items@, level + 1, i as int);
            }
            let ghost before = buffer.text();
            buffer.line_break();
            match &config.items[i] {
                ConfigurationItem::Block(block_configuration) => {
                    self.format_block_configuration(block_configuration, buffer)
                },
                ConfigurationItem::Component(component_configuration) => {
                    self.format_component_configuration(component_configuration, buffer)
                },
            }
            assert(buffer.text() == before + brk(level + 1) + item_text(
                toks,
                config.items@[i as int],
                level + 1,
            ));
            assert(config.items@.subrange(0, i + 1).drop_last() =~= config.items@.subrange(
                0,
                i as int,
            ));
            i = i + 1;
            assert(buffer.text() =~= t1 + items_text(
                toks,
                config.items@.subrange(0, i as int),
                level + 1,
            ));
        }
        assert(config.items@.subrange(0, i as int) =~= config.items@);
        buffer.decrease_indent();
        buffer.line_break();
        // end
        self.format_token_id(config.span.end_token - 2, buffer);
        buffer.push_whitespace();
        // for
        self.format_token_id(config.span.end_token - 1, buffer);
        // ;
        self.format_token_id(config.span.end_token, buffer);
        assert(buffer.text() =~= old(buffer).text() + block_text(toks, *config, level));
    }

    /// The component specification, then one level deeper the binding
    /// indication, verification-unit bindings and nested block, then `end for;`.
    #[verifier::rlimit(60)]
    pub fn format_component_configuration(
        &self,
        config: &ComponentConfiguration,
        buffer: &mut Buffer,
    )
        requires
            wf_comp(self.toks(), *config, old(buffer).level()),
        ensures
            final(buffer).text() == old(buffer).text() + comp_config_text(
                self.toks(),
                *config,
                old(buffer).level(),
            ),
            final(buffer).level() == old(buffer).level(),
        decreases config,
    {
        let ghost toks = self.toks();
        let ghost level = old(buffer).level();
        self.format_component_specification(&config.spec, buffer);
        let ghost t1 = buffer.text();
        buffer.increase_indent();
        if let Some(binding_indication) = &config.bind_ind {
            buffer.line_break();
            self.format_binding_indication(binding_indication, buffer);
        }
        let ghost t2 = buffer.text();
        self.format_v_unit_binding_indications(config.vunit_bind_inds.as_slice(), buffer);
        let ghost t3 = buffer.text();
        if let Some(block_configuration) = &config.block_config {
            buffer.line_break();
            self.format_block_configuration(block_configuration, buffer);
        }
        let ghost t4 = buffer.text();
        buffer.decrease_indent();
        buffer.line_break();
        // end
        self.format_token_id(config.span.end_token - 2, buffer);
        buffer.push_whitespace();
        // for
        self.format_token_id(config.span.end_token - 1, buffer);
        // ;
        self.format_token_id(config.span.end_token, buffer);
        assert(buffer.text() =~= t4 + brk(level) + end_for_text(toks, config.span));
        assert(t4 =~= t3 + block_part(toks, config.block_config, level));
        assert(t2 =~= t1 + binding_part(toks, config.bind_ind, level));
        assert(buffer.text() =~= old(buffer).text() + comp_config_text(toks, *config, level));
    }

    /// `use`, the entity aspect, each map aspect on its own line one level
    /// deeper, and the closing `;`.
    #[verifier::rlimit(60)]
    pub fn format_binding_indication(&self, indication: &BindingIndication, buffer: &mut Buffer)
        requires
            wf_binding(self.toks(), *indication, old(buffer).level()),
        ensures
            final(buffer).text() == old(buffer).text() + binding_text(
                self.toks(),
                *indication,
                old(buffer).level(),
            ),
            final(buffer).level() == old(buffer).level(),
    {
        // The stream's length is a usize, so the token offsets below cannot overflow.
        let n: usize = self.tokens.len();
        let ghost toks = self.toks();
        let ghost level = old(buffer).level();
        // use
        self.format_token_id(indication.span.start_token, buffer);
        let ghost t1 = buffer.text();
        if let Some(aspect) = &indication.entity_aspect {
            buffer.push_whitespace();
            self.format_token_id(indication.span.start_token + 1, buffer);
            match aspect {
                EntityAspect::Entity(entity, architecture) => {
                    buffer.push_whitespace();
                    self.format_name(entity, buffer);
                    if let Some(arch) = architecture {
                        self.format_token_id(arch.token - 1, buffer);
                        self.format_token_id(arch.token, buffer);
                        self.format_token_id(arch.token + 1, buffer);
                    }
                },
                EntityAspect::Configuration(config) => {
                    buffer.push_whitespace();
                    self.format_name(config, buffer);
                },
                EntityAspect::Open => {},
            }
            assert(buffer.text() =~= t1 + aspect_text(
                toks,
                indication.span.start_token as int,
                *aspect,
            ));
        }
        let ghost t2 = buffer.text();
        assert(t2 =~= t1 + match indication.entity_aspect {
            Some(a) => aspect_text(toks, indication.span.start_token as int, a),
            None => seq![],
        });
        if let Some(map_aspect) = &indication.generic_map {
            buffer.increase_indent();
            buffer.line_break();
            self.format_map_aspect(map_aspect, buffer);
            buffer.decrease_indent();
        }
        let ghost t3 = buffer.text();
        assert(t3 =~= t2 + map_text(toks, indication.generic_map, level));
        if let Some(map_aspect) = &indication.port_map {
            buffer.increase_indent();
            buffer.line_break();
            self.format_map_aspect(map_aspect, buffer);
            buffer.decrease_indent();
        }
        let ghost t4 = buffer.text();
        assert(t4 =~= t3 + map_text(toks, indication.port_map, level));
        self.format_token_id(indication.span.end_token, buffer);
        assert(buffer.text() =~= old(buffer).text() + binding_text(toks, *indication, level));
    }

    /// A configuration specification: the component specification, then one
    /// level deeper its binding, then `end for;` where the source has it.
    pub fn format_configuration_specification(
        &self,
        configuration: &ConfigurationSpecification,
        buffer: &mut Buffer,
    )
        requires
            wf_config_spec(self.toks(), *configuration, old(buffer).level()),
        ensures
            final(buffer).text() == old(buffer).text() + config_spec_text(
                self.toks(),
                *configuration,
                old(buffer).level(),
            ),
            final(buffer).level() == old(buffer).level(),
    {
        // The stream's length is a usize, so the token offsets below cannot overflow.
        let n: usize = self.tokens.len();
        let ghost toks = self.toks();
        let ghost level = old(buffer).level();
        self.format_component_specification(&configuration.spec, buffer);
        buffer.increase_indent();
        buffer.line_break();
        self.format_binding_indication(&configuration.bind_ind, buffer);
        self.format_v_unit_binding_indications(configuration.vunit_bind_inds.as_slice(), buffer);
        buffer.decrease_indent();
        let ghost t1 = buffer.text();
        if let Some(end_token) = configuration.end_token {
            buffer.line_break();
            self.format_token_id(end_token, buffer);
            buffer.push_whitespace();
            self.format_token_id(end_token + 1, buffer);
            self.format_token_id(configuration.span.end_token, buffer);
        }
        assert(buffer.text() =~= t1 + spec_end_text(toks, *configuration, level));
        assert(buffer.text() =~= old(buffer).text() + config_spec_text(
            toks,
            *configuration,
            level,
        ));
    }

    /// `for <labels> : <component>`, or `for all:` / `for others:` as written.
    pub fn format_component_specification(
        &self,
        spec: &ComponentSpecification,
        buffer: &mut Buffer,
    )
        requires
            wf_comp_spec(self.toks(), *spec),
        ensures
            final(buffer).text() == old(buffer).text() + comp_spec_text(self.toks(), *spec),
            final(buffer).level() == old(buffer).level(),
    {
        // The stream's length is a usize, so the token offsets below cannot overflow.
        let n: usize = self.tokens.len();
        let ghost toks = self.toks();
        // for
        self.format_token_id(spec.span.start_token, buffer);
        buffer.push_whitespace();
        match &spec.instantiation_list {
            InstantiationList::Labels(labels) => self.format_ident_list(labels, buffer),
            InstantiationList::Others => self.format_token_id(spec.span.start_token + 1, buffer),
            InstantiationList::All => self.format_token_id(spec.span.start_token + 1, buffer),
        }
        // :
        self.format_token_id(spec.colon_token, buffer);
        buffer.push_whitespace();
        self.format_name(&spec.component_name, buffer);
        assert(buffer.text() =~= old(buffer).text() + comp_spec_text(toks, *spec));
    }

    /// `use vunit a, b;` with the commas that the source has after each name.
    pub fn format_v_unit_indication(
        &self,
        v_unit_binding_indication: &VUnitBindingIndication,
        buffer: &mut Buffer,
    )
        requires
            wf_vunit(self.toks(), *v_unit_binding_indication),
        ensures
            final(buffer).text() == old(buffer).text() + vunit_text(
                self.toks(),
                *v_unit_binding_indication,
            ),
            final(buffer).level() == old(buffer).level(),
    {
        // The stream's length is a usize, so the token offsets below cannot overflow.
        let n: usize = self.tokens.len();
        let ghost toks = self.toks();
        let names = &v_unit_binding_indication.vunit_list;
        // use
        self.format_token_id(v_unit_binding_indication.span.start_token, buffer);
        buffer.push_whitespace();
        // vunit
        self.format_token_id(v_unit_binding_indication.span.start_token + 1, buffer);
        buffer.push_whitespace();
        let ghost t1 = buffer.text();
        let mut i: usize = 0;
        assert(t1 =~= t1 + vunit_names_text(toks, names@, 0));
        while i < names.len()
            invariant
                i <= names@.len(),
                toks == self.toks(),
                wf_vunit(toks, *v_unit_binding_indication),
                *names == v_unit_binding_indication.vunit_list,
                buffer.text() == t1 + vunit_names_text(toks, names@, i as int),
                buffer.level() == old(buffer).level(),
            decreases names@.len() - i,
        {
            assert(name_in(toks, names@[i as int]));
            self.format_name(&names[i], buffer);
            self.format_comma_after(names[i].span.end_token, buffer);
            i = i + 1;
            assert(buffer.text() =~= t1 + vunit_names_text(toks, names@, i as int));
        }
        self.format_token_id(v_unit_binding_indication.span.end_token, buffer);
        assert(buffer.text() =~= old(buffer).text() + vunit_text(
            toks,
            *v_unit_binding_indication,
        ));
    }
}

} // verus!

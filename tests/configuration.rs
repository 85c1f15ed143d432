use vhdl_lang::ast::{
    BindingIndication, BlockConfiguration, ComponentConfiguration, ComponentSpecification,
    ConfigurationDeclaration, ConfigurationItem, ConfigurationSpecification, ContextItem,
    Declaration, EntityAspect, Ident, InstantiationList, MapAspect, Name, UseClause,
    VUnitBindingIndication,
};
use vhdl_lang::buffer::Buffer;
use vhdl_lang::formatter::VHDLFormatter;
use vhdl_lang::token::{needs_space, Kind, Token, TokenSpan};

const KEYWORDS: &[&str] = &[
    "all",
    "configuration",
    "context",
    "downto",
    "end",
    "entity",
    "for",
    "generic",
    "is",
    "library",
    "map",
    "of",
    "open",
    "others",
    "port",
    "to",
    "use",
    "vunit",
];

fn tokenize(code: &str) -> Vec<Token> {
    let chars: Vec<char> = code.chars().collect();
    let mut tokens = Vec::new();
    let mut i = 0;
    while i < chars.len() {
        let c = chars[i];
        if c.is_whitespace() {
            i += 1;
            continue;
        }
        let start = i;
        let kind = if c.is_ascii_alphabetic() {
            while i < chars.len() && (chars[i].is_ascii_alphanumeric() || chars[i] == '_') {
                i += 1;
            }
            let word: String = chars[start..i].iter().collect();
            if KEYWORDS.contains(&word.to_lowercase().as_str()) {
                Kind::Keyword
            } else {
                Kind::Identifier
            }
        } else if c.is_ascii_digit() {
            while i < chars.len() && chars[i].is_ascii_alphanumeric() {
                i += 1;
            }
            Kind::Literal
        } else if c == '=' && i + 1 < chars.len() && chars[i + 1] == '>' {
            i += 2;
            Kind::Arrow
        } else {
            i += 1;
            match c {
                ',' => Kind::Comma,
                '.' => Kind::Dot,
                ':' => Kind::Colon,
                ';' => Kind::SemiColon,
                '(' => Kind::LeftPar,
                ')' => Kind::RightPar,
                '\'' => Kind::Tick,
                _ => Kind::Other,
            }
        };
        tokens.push(Token { kind, text: chars[start..i].iter().collect() });
    }
    tokens
}

struct Parser<'t> {
    toks: &'t [Token],
    pos: usize,
}

impl<'t> Parser<'t> {
    fn peek(&self, ahead: usize) -> &str {
        self.toks.get(self.pos + ahead).map(|t| t.text.as_str()).unwrap_or("")
    }

    fn advance(&mut self) -> usize {
        self.pos += 1;
        self.pos - 1
    }

    fn expect(&mut self, text: &str) -> usize {
        assert_eq!(self.peek(0).to_lowercase(), text, "at token {}", self.pos);
        self.advance()
    }

    fn skip_parens(&mut self) {
        let mut depth = 0;
        loop {
            match self.peek(0) {
                "(" => depth += 1,
                ")" => depth -= 1,
                _ => {}
            }
            self.advance();
            if depth == 0 {
                break;
            }
        }
    }

    fn name(&mut self, stop_at_paren: bool) -> Name {
        let start = self.advance();
        while self.peek(0) == "." {
            self.advance();
            self.advance();
        }
        if !stop_at_paren && self.peek(0) == "(" {
            self.skip_parens();
        }
        Name { span: TokenSpan::new(start, self.pos - 1) }
    }

    fn until_semicolon(&mut self) -> TokenSpan {
        let start = self.pos;
        while self.peek(0) != ";" {
            self.advance();
        }
        TokenSpan::new(start, self.advance())
    }

    fn vunit_binding(&mut self) -> VUnitBindingIndication {
        let start = self.expect("use");
        self.expect("vunit");
        let mut vunit_list = Vec::new();
        loop {
            vunit_list.push(self.name(false));
            if self.peek(0) != "," {
                break;
            }
            self.advance();
        }
        let end = self.expect(";");
        VUnitBindingIndication { span: TokenSpan::new(start, end), vunit_list }
    }

    fn vunit_bindings(&mut self) -> Vec<VUnitBindingIndication> {
        let mut v = Vec::new();
        while self.peek(0) == "use" && self.peek(1) == "vunit" {
            v.push(self.vunit_binding());
        }
        v
    }

    fn map_aspect(&mut self, keyword: &str) -> Option<MapAspect> {
        if self.peek(0) != keyword {
            return None;
        }
        let start = self.advance();
        self.expect("map");
        self.skip_parens();
        Some(MapAspect { span: TokenSpan::new(start, self.pos - 1) })
    }

    fn binding(&mut self) -> BindingIndication {
        let start = self.expect("use");
        let entity_aspect = match self.peek(0) {
            "entity" => {
                self.advance();
                let name = self.name(true);
                let arch = if self.peek(0) == "(" {
                    self.advance();
                    let token = self.advance();
                    self.expect(")");
                    Some(Ident { token })
                } else {
                    None
                };
                Some(EntityAspect::Entity(name, arch))
            }
            "configuration" => {
                self.advance();
                Some(EntityAspect::Configuration(self.name(false)))
            }
            "open" => {
                self.advance();
                Some(EntityAspect::Open)
            }
            _ => None,
        };
        let generic_map = self.map_aspect("generic");
        let port_map = self.map_aspect("port");
        let end = self.expect(";");
        BindingIndication { span: TokenSpan::new(start, end), entity_aspect, generic_map, port_map }
    }

    fn component_spec(&mut self) -> ComponentSpecification {
        let start = self.expect("for");
        let instantiation_list = match self.peek(0) {
            "all" => {
                self.advance();
                InstantiationList::All
            }
            "others" => {
                self.advance();
                InstantiationList::Others
            }
            _ => {
                let mut labels = Vec::new();
                loop {
                    labels.push(Ident { token: self.advance() });
                    if self.peek(0) != "," {
                        break;
                    }
                    self.advance();
                }
                InstantiationList::Labels(labels)
            }
        };
        let colon_token = self.expect(":");
        let component_name = self.name(false);
        ComponentSpecification {
            span: TokenSpan::new(start, self.pos - 1),
            instantiation_list,
            colon_token,
            component_name,
        }
    }

    fn end_for(&mut self) -> usize {
        self.expect("end");
        self.expect("for");
        self.expect(";")
    }

    fn component(&mut self) -> ComponentConfiguration {
        let start = self.pos;
        let spec = self.component_spec();
        let bind_ind = if self.peek(0) == "use" && self.peek(1) != "vunit" {
            Some(self.binding())
        } else {
            None
        };
        let vunit_bind_inds = self.vunit_bindings();
        let block_config = if self.peek(0) == "for" { Some(self.block()) } else { None };
        let end = self.end_for();
        ComponentConfiguration {
            span: TokenSpan::new(start, end),
            spec,
            bind_ind,
            vunit_bind_inds,
            block_config,
        }
    }

    fn block(&mut self) -> BlockConfiguration {
        let start = self.expect("for");
        let block_spec = self.name(false);
        let mut items = Vec::new();
        while self.peek(0) == "for" {
            if self.peek(2) == "," || self.peek(2) == ":" {
                items.push(ConfigurationItem::Component(self.component()));
            } else {
                items.push(ConfigurationItem::Block(self.block()));
            }
        }
        let end = self.end_for();
        let use_clauses: Vec<UseClause> = Vec::new();
        BlockConfiguration { span: TokenSpan::new(start, end), block_spec, use_clauses, items }
    }

    fn configuration(&mut self) -> ConfigurationDeclaration {
        let mut context_clause = Vec::new();
        while self.peek(0) != "configuration" {
            context_clause.push(ContextItem { span: self.until_semicolon() });
        }
        let start = self.expect("configuration");
        let ident = Ident { token: self.advance() };
        self.expect("of");
        let entity_name = self.name(false);
        self.expect("is");
        let mut decl = Vec::new();
        while self.peek(0) == "use" && self.peek(1) != "vunit" {
            decl.push(Declaration { span: self.until_semicolon() });
        }
        let vunit_bind_inds = self.vunit_bindings();
        let block_config = self.block();
        let end_token = self.expect("end");
        while self.peek(0) != ";" {
            self.advance();
        }
        let end = self.expect(";");
        ConfigurationDeclaration {
            span: TokenSpan::new(start, end),
            context_clause,
            ident,
            entity_name,
            decl,
            vunit_bind_inds,
            block_config,
            end_token,
        }
    }
}

fn format_configuration_text(input: &str) -> String {
    let tokens = tokenize(input);
    let mut parser = Parser { toks: &tokens, pos: 0 };
    let configuration = parser.configuration();
    assert_eq!(parser.pos, tokens.len());
    let formatter = VHDLFormatter::new(&tokens);
    let mut buffer = Buffer::new();
    formatter.format_configuration(&configuration, &mut buffer);
    buffer.as_str().to_string()
}

fn check_design_unit_formatted(input: &str) {
    assert_eq!(format_configuration_text(input), input);
}

#[test]
fn check_configuration() {
    check_design_unit_formatted(
        "\
configuration cfg of entity_name is
    for rtl(0)
    end for;
end;",
    );
    check_design_unit_formatted(
        "\
configuration cfg of entity_name is
    for rtl(0)
    end for;
end configuration cfg;",
    );
    check_design_unit_formatted(
        "\
configuration cfg of entity_name is
    use lib.foo.bar;
    use lib2.foo.bar;
    for rtl(0)
    end for;
end configuration cfg;",
    );
    check_design_unit_formatted(
        "\
configuration cfg of entity_name is
    for rtl(0)
        for name(0 to 3)
        end for;
        for other_name
        end for;
    end for;
end configuration cfg;",
    );
    check_design_unit_formatted(
        "\
configuration cfg of entity_name is
    for rtl(0)
        for name(0 to 3)
            for name(7 to 8)
            end for;
        end for;
        for other_name
        end for;
    end for;
end configuration cfg;",
    );
    check_design_unit_formatted(
        "\
configuration cfg of entity_name is
    use lib.foo.bar;
    use vunit baz.foobar;
    for rtl(0)
    end for;
end configuration cfg;",
    );
    check_design_unit_formatted(
        "\
configuration cfg of entity_name is
    for rtl(0)
        for inst: lib.pkg.comp
            for arch
            end for;
        end for;
    end for;
end configuration cfg;",
    );
    check_design_unit_formatted(
        "\
configuration cfg of entity_name is
    for rtl(0)
        for inst: lib.pkg.comp
            use entity work.bar;
            use vunit baz;
            for arch
            end for;
        end for;
    end for;
end configuration cfg;",
    );
    check_design_unit_formatted(
        "\
configuration cfg of entity_name is
    for rtl(0)
        for inst: lib.pkg.comp
            use entity lib.use_name;
        end for;
    end for;
end configuration cfg;",
    );
    check_design_unit_formatted(
        "\
configuration cfg of entity_name is
    for rtl(0)
        for inst: lib.pkg.comp
        end for;
        for inst1, inst2, inst3: lib2.pkg.comp
        end for;
        for all: lib3.pkg.comp
        end for;
        for others: lib4.pkg.comp
        end for;
    end for;
end configuration cfg;",
    );
}

#[test]
fn check_entity_aspect() {
    check_design_unit_formatted(
        "\
configuration cfg of entity_name is
    for foo
        for inst: lib.pkg.comp
            use entity lib.use_name;
        end for;
    end for;
end configuration cfg;",
    );
    check_design_unit_formatted(
        "\
configuration cfg of entity_name is
    for foo
        for inst: lib.pkg.comp
            use entity lib.foo.name(arch);
        end for;
    end for;
end configuration cfg;",
    );
    check_design_unit_formatted(
        "\
configuration cfg of entity_name is
    for foo
        for inst: lib.pkg.comp
            use configuration lib.foo.name;
        end for;
    end for;
end configuration cfg;",
    );
}

#[test]
fn irregular_spacing_becomes_canonical_and_stays_so() {
    let input = "configuration   cfg of entity_name is\n  use lib.foo.bar ;\nfor rtl ( 0 )\n for inst1,inst2 : lib.pkg.comp\n use entity work.foo ( rtl ) ;\nend for ;\nend for;\nend   configuration cfg ;";
    let expected = "\
configuration cfg of entity_name is
    use lib.foo.bar;
    for rtl(0)
        for inst1, inst2: lib.pkg.comp
            use entity work.foo(rtl);
        end for;
    end for;
end configuration cfg;";
    let once = format_configuration_text(input);
    assert_eq!(once, expected);
    assert_eq!(format_configuration_text(&once), once);
}

#[test]
fn label_list_spacing_is_normalized() {
    let input = "configuration cfg of e is for rtl for inst1 ,inst2,inst3:lib2.pkg.comp end for; end for; end;";
    let expected = "\
configuration cfg of e is
    for rtl
        for inst1, inst2, inst3: lib2.pkg.comp
        end for;
    end for;
end;";
    assert_eq!(format_configuration_text(input), expected);
}

#[test]
fn vunit_list_gets_one_space_after_each_comma() {
    let input = "configuration cfg of e is\nuse vunit a,b ,  c;\nfor rtl\nend for;\nend;";
    let expected = "\
configuration cfg of e is
    use vunit a, b, c;
    for rtl
    end for;
end;";
    assert_eq!(format_configuration_text(input), expected);
}

#[test]
fn closing_with_keyword_only_is_kept() {
    check_design_unit_formatted(
        "\
configuration cfg of entity_name is
    for rtl(0)
    end for;
end configuration;",
    );
}

#[test]
fn four_nested_blocks_indent_one_level_each() {
    check_design_unit_formatted(
        "\
configuration c of e is
    for a
        for b
            for c
                for d
                end for;
            end for;
        end for;
    end for;
end;",
    );
}

#[test]
fn context_clause_lines_precede_the_configuration() {
    let input = "library ieee; use ieee.std_logic_1164.all;\n\nconfiguration cfg of e is for rtl end for; end;";
    let expected = "\
library ieee;
use ieee.std_logic_1164.all;
configuration cfg of e is
    for rtl
    end for;
end;";
    assert_eq!(format_configuration_text(input), expected);
}

#[test]
fn map_aspects_go_on_their_own_lines() {
    check_design_unit_formatted(
        "\
configuration cfg of e is
    for rtl
        for inst: lib.comp
            use entity work.foo
                generic map (g => 1)
                port map (a => b, c => d);
        end for;
    end for;
end;",
    );
}

#[test]
fn open_aspect_has_nothing_after_it() {
    check_design_unit_formatted(
        "\
configuration cfg of e is
    for rtl
        for inst: lib.comp
            use open;
        end for;
    end for;
end;",
    );
}

#[test]
fn empty_component_configuration_has_header_and_footer_only() {
    check_design_unit_formatted(
        "\
configuration cfg of e is
    for rtl
        for all: lib.comp
        end for;
    end for;
end;",
    );
}

fn configuration_specification(end_for: bool) -> (Vec<Token>, ConfigurationSpecification) {
    let text = if end_for {
        "for inst : comp use entity work.foo ; end for ;"
    } else {
        "for inst : comp use entity work.foo ;"
    };
    let tokens = tokenize(text);
    let spec = ComponentSpecification {
        span: TokenSpan::new(0, 3),
        instantiation_list: InstantiationList::Labels(vec![Ident { token: 1 }]),
        colon_token: 2,
        component_name: Name { span: TokenSpan::new(3, 3) },
    };
    let bind_ind = BindingIndication {
        span: TokenSpan::new(4, 9),
        entity_aspect: Some(EntityAspect::Entity(Name { span: TokenSpan::new(6, 8) }, None)),
        generic_map: None,
        port_map: None,
    };
    let last = tokens.len() - 1;
    let configuration = ConfigurationSpecification {
        span: TokenSpan::new(0, last),
        spec,
        bind_ind,
        vunit_bind_inds: Vec::new(),
        end_token: if end_for { Some(10) } else { None },
    };
    (tokens, configuration)
}

#[test]
fn configuration_specification_keeps_its_end_for() {
    let (tokens, configuration) = configuration_specification(true);
    let formatter = VHDLFormatter::new(&tokens);
    let mut buffer = Buffer::new();
    formatter.format_configuration_specification(&configuration, &mut buffer);
    assert_eq!(buffer.as_str(), "for inst: comp\n    use entity work.foo;\nend for;");
}

#[test]
fn configuration_specification_without_end_for_gets_none() {
    let (tokens, configuration) = configuration_specification(false);
    let formatter = VHDLFormatter::new(&tokens);
    let mut buffer = Buffer::new();
    formatter.format_configuration_specification(&configuration, &mut buffer);
    assert_eq!(buffer.as_str(), "for inst: comp\n    use entity work.foo;");
}

#[test]
fn vunit_indication_alone() {
    let tokens = tokenize("use vunit lib.a , b ;");
    let binding = VUnitBindingIndication {
        span: TokenSpan::new(0, 7),
        vunit_list: vec![Name { span: TokenSpan::new(2, 4) }, Name { span: TokenSpan::new(6, 6) }],
    };
    let formatter = VHDLFormatter::new(&tokens);
    let mut buffer = Buffer::new();
    formatter.format_v_unit_indication(&binding, &mut buffer);
    assert_eq!(buffer.as_str(), "use vunit lib.a, b;");
}

#[test]
fn buffer_indents_each_new_line() {
    let mut buffer = Buffer::new();
    assert_eq!(buffer.as_str(), "");
    buffer.push_str("ab");
    buffer.increase_indent();
    buffer.line_break();
    buffer.push_str("c");
    buffer.increase_indent();
    buffer.line_break();
    buffer.decrease_indent();
    buffer.decrease_indent();
    buffer.line_break();
    buffer.push_whitespace();
    assert_eq!(buffer.indentation(), 0);
    assert_eq!(buffer.as_str(), "ab\n    c\n        \n ");
}

#[test]
fn spacing_between_token_kinds() {
    assert!(needs_space(Kind::Identifier, Kind::Keyword));
    assert!(needs_space(Kind::Comma, Kind::Identifier));
    assert!(needs_space(Kind::Keyword, Kind::LeftPar));
    assert!(needs_space(Kind::Identifier, Kind::Arrow));
    assert!(needs_space(Kind::Arrow, Kind::Literal));
    assert!(!needs_space(Kind::Identifier, Kind::LeftPar));
    assert!(!needs_space(Kind::Identifier, Kind::Dot));
    assert!(!needs_space(Kind::Dot, Kind::Identifier));
    assert!(!needs_space(Kind::Identifier, Kind::Comma));
    assert!(!needs_space(Kind::RightPar, Kind::SemiColon));
}

#[test]
fn token_lookup_past_the_end_is_none() {
    let tokens = tokenize("a , b");
    let formatter = VHDLFormatter::new(&tokens);
    assert!(formatter.get_token(3).is_none());
    assert_eq!(formatter.get_token(1).map(|t| t.kind), Some(Kind::Comma));
    assert!(formatter.comma_follows(0));
    assert!(!formatter.comma_follows(1));
    assert!(!formatter.comma_follows(2));
}

#[test]
fn output_without_blanks_is_the_token_texts() {
    let input = "configuration cfg of e is use vunit a ,b; for rtl ( 0 ) for all : lib.comp use entity work.foo(rtl) port map ( p=>s ); end for; end for; end configuration cfg;";
    let tokens = tokenize(input);
    let texts: String = tokens.iter().map(|t| t.text.as_str()).collect();
    let output = format_configuration_text(input);
    let stripped: String = output.chars().filter(|c| *c != ' ' && *c != '\n').collect();
    assert_eq!(stripped, texts);
}

//! Properties of the canonical layout, stated over the spec functions that
//! the printers' contracts use, and proved.
use crate::ast::{
    BindingIndication, BlockConfiguration, ComponentConfiguration, ComponentSpecification,
    ConfigurationDeclaration, ConfigurationItem, ConfigurationSpecification, EntityAspect, Ident,
    InstantiationList, MapAspect, Name, VUnitBindingIndication, ContextItem, Declaration,
};
use crate::buffer::{brk, indent};
use crate::layout::{
    all_vunits_text, aspect_text, binding_part, binding_text, block_part, block_text,
    closing_text, comma_text, comp_config_text, comp_spec_text, config_spec_body,
    config_spec_text, config_text, context_text, decls_text, wf_config, end_for_text, item_text, items_text, labels_text, map_text, name_in,
    name_text, sp, tok, vunit_names_text, vunit_text, vunits_text, wf_aspect, wf_binding,
    wf_block, wf_comp, wf_comp_spec, wf_end_for, wf_item, wf_items, wf_labels, wf_map, wf_vunit,
    wf_vunits,
};
use crate::token::{comma_after, span_in, span_text, Kind, Token, TokenSpan};
use vstd::prelude::*;

verus! {

// ---- nesting ----

/// `b` opens a chain of `n` further block configurations, each the only item
/// of the one before; the innermost has no items.
pub open spec fn block_chain(b: BlockConfiguration, n: nat) -> bool
    decreases n,
{
    if n == 0 {
        b.items@.len() == 0
    } else {
        &&& b.items@.len() == 1
        &&& b.items@[0] is Block
        &&& block_chain(b.items@[0]->Block_0, (n - 1) as nat)
    }
}

/// `for <block spec>`
pub open spec fn block_head(toks: Seq<Token>, b: BlockConfiguration) -> Seq<char> {
    tok(toks, b.span.start_token as int) + sp() + name_text(toks, b.block_spec)
}

/// The opening lines of a chain: each `for` one level deeper than its parent's.
pub open spec fn chain_open(toks: Seq<Token>, b: BlockConfiguration, n: nat, level: nat) -> Seq<
    char,
>
    decreases n,
{
    if n == 0 {
        block_head(toks, b)
    } else {
        block_head(toks, b) + brk(level + 1) + chain_open(
            toks,
            b.items@[0]->Block_0,
            (n - 1) as nat,
            level + 1,
        )
    }
}

/// The closing lines of a chain: innermost first, each `end for;` at the
/// level of the `for` it closes.
pub open spec fn chain_close(toks: Seq<Token>, b: BlockConfiguration, n: nat, level: nat) -> Seq<
    char,
>
    decreases n,
{
    if n == 0 {
        brk(level) + end_for_text(toks, b.span)
    } else {
        chain_close(toks, b.items@[0]->Block_0, (n - 1) as nat, level + 1) + brk(level)
            + end_for_text(toks, b.span)
    }
}

/// For `n` nested block configurations, every `for` line is indented one level
/// deeper than the one before, and the `end for;` lines follow in reverse
/// order, each at the level of the `for` it closes.
pub proof fn lemma_nesting_depth(toks: Seq<Token>, b: BlockConfiguration, n: nat, level: nat)
    requires
        block_chain(b, n),
    ensures
        block_text(toks, b, level) == chain_open(toks, b, n, level) + chain_close(
            toks,
            b,
            n,
            level,
        ),
    decreases n,
{
    if n == 0 {
        assert(items_text(toks, b.items@, level + 1) == Seq::<char>::empty());
        assert(block_text(toks, b, level) =~= chain_open(toks, b, n, level) + chain_close(
            toks,
            b,
            n,
            level,
        ));
    } else {
        let child = b.items@[0]->Block_0;
        lemma_nesting_depth(toks, child, (n - 1) as nat, level + 1);
        assert(b.items@.drop_last().len() == 0);
        assert(items_text(toks, b.items@.drop_last(), level + 1) == Seq::<char>::empty());
        assert(item_text(toks, b.items@[0], level + 1) == block_text(toks, child, level + 1));
        assert(items_text(toks, b.items@, level + 1) =~= brk(level + 1) + block_text(
            toks,
            child,
            level + 1,
        ));
        assert(block_text(toks, b, level) =~= chain_open(toks, b, n, level) + chain_close(
            toks,
            b,
            n,
            level,
        ));
    }
}

// ---- commas between verification units ----

/// The first `k` names joined by a comma and one space.
pub open spec fn comma_joined(toks: Seq<Token>, ns: Seq<Name>, k: int) -> Seq<char>
    decreases k,
{
    if k <= 0 {
        seq![]
    } else if k == 1 {
        name_text(toks, ns[0])
    } else {
        comma_joined(toks, ns, k - 1) + seq![',', ' '] + name_text(toks, ns[k - 1])
    }
}

/// The source separates the first `k` names by single comma tokens, and none follows the last.
pub open spec fn comma_separated(toks: Seq<Token>, ns: Seq<Name>, k: int) -> bool {
    &&& 1 <= k <= ns.len()
    &&& forall|i: int|
        #![trigger ns[i]]
        0 <= i < k - 1 ==> comma_after(toks, ns[i].span.end_token as int) && tok(
            toks,
            ns[i].span.end_token + 1,
        ) == seq![',']
    &&& !comma_after(toks, ns[k - 1].span.end_token as int)
}

proof fn lemma_names_before_last(toks: Seq<Token>, ns: Seq<Name>, k: int, j: int)
    requires
        comma_separated(toks, ns, k),
        1 <= j < k,
    ensures
        vunit_names_text(toks, ns, j) == comma_joined(toks, ns, j) + seq![',', ' '],
    decreases j,
{
    let t = ns[j - 1];
    assert(comma_after(toks, t.span.end_token as int));
    if j == 1 {
        assert(vunit_names_text(toks, ns, 0) == Seq::<char>::empty());
        assert(vunit_names_text(toks, ns, j) =~= comma_joined(toks, ns, j) + seq![',', ' ']);
    } else {
        lemma_names_before_last(toks, ns, k, j - 1);
        assert(vunit_names_text(toks, ns, j) =~= comma_joined(toks, ns, j) + seq![',', ' ']);
    }
}

/// A list of `k` verification units written with commas between them prints
/// with exactly `k - 1` separators, each a comma followed by one space,
/// whatever the source spacing was.
pub proof fn lemma_vunit_commas(toks: Seq<Token>, ns: Seq<Name>, k: int)
    requires
        comma_separated(toks, ns, k),
    ensures
        vunit_names_text(toks, ns, k) == comma_joined(toks, ns, k),
{
    if k == 1 {
        assert(vunit_names_text(toks, ns, 0) == Seq::<char>::empty());
        assert(vunit_names_text(toks, ns, k) =~= comma_joined(toks, ns, k));
    } else {
        lemma_names_before_last(toks, ns, k, k - 1);
        assert(vunit_names_text(toks, ns, k) =~= comma_joined(toks, ns, k));
    }
}

// ---- closing forms ----

/// Each legal closing line of a configuration declaration prints as written:
/// `end;`, `end configuration;` and `end configuration <name>;`.
pub proof fn lemma_closing_forms(toks: Seq<Token>, c: ConfigurationDeclaration)
    requires
        c.end_token < c.span.end_token < toks.len(),
    ensures
        c.end_token + 1 == c.span.end_token ==> closing_text(toks, c) == tok(
            toks,
            c.end_token as int,
        ) + tok(toks, c.span.end_token as int),
        c.end_token + 2 == c.span.end_token && toks[c.end_token as int].kind == Kind::Keyword
            && toks[c.end_token + 1].kind == Kind::Keyword ==> closing_text(toks, c) == tok(
            toks,
            c.end_token as int,
        ) + sp() + tok(toks, c.end_token + 1) + tok(toks, c.span.end_token as int),
        c.end_token + 3 == c.span.end_token && toks[c.end_token as int].kind == Kind::Keyword
            && toks[c.end_token + 1].kind == Kind::Keyword && toks[c.end_token + 2].kind
            == Kind::Identifier ==> closing_text(toks, c) == tok(toks, c.end_token as int) + sp()
            + tok(toks, c.end_token + 1) + sp() + tok(toks, c.end_token + 2) + tok(
            toks,
            c.span.end_token as int,
        ),
{
    let e = c.end_token as int;
    if c.end_token + 2 == c.span.end_token {
        assert(span_text(toks, e, e + 1) == span_text(toks, e, e) + crate::token::gap(toks, e + 1)
            + tok(toks, e + 1));
    }
    if c.end_token + 3 == c.span.end_token {
        assert(span_text(toks, e, e + 1) == span_text(toks, e, e) + crate::token::gap(toks, e + 1)
            + tok(toks, e + 1));
        assert(span_text(toks, e, e + 2) == span_text(toks, e, e + 1) + crate::token::gap(
            toks,
            e + 2,
        ) + tok(toks, e + 2));
        if toks[e].kind == Kind::Keyword && toks[e + 1].kind == Kind::Keyword && toks[e + 2].kind
            == Kind::Identifier {
            assert(closing_text(toks, c) =~= tok(toks, e) + sp() + tok(toks, e + 1) + sp() + tok(
                toks,
                e + 2,
            ) + tok(toks, c.span.end_token as int));
        }
    }
}

// ---- optional end for ----

/// A configuration specification ends in `end for;` exactly when its source did.
pub proof fn lemma_optional_end_for(toks: Seq<Token>, c: ConfigurationSpecification, level: nat)
    ensures
        c.end_token is None ==> config_spec_text(toks, c, level) == config_spec_body(
            toks,
            c,
            level,
        ),
        c.end_token is Some ==> config_spec_text(toks, c, level) == config_spec_body(
            toks,
            c,
            level,
        ) + brk(level) + tok(toks, c.end_token->0 as int) + sp() + tok(
            toks,
            c.end_token->0 + 1,
        ) + tok(toks, c.span.end_token as int),
{
    if c.end_token is None {
        assert(config_spec_text(toks, c, level) =~= config_spec_body(toks, c, level));
    } else {
        assert(config_spec_text(toks, c, level) =~= config_spec_body(toks, c, level) + brk(level)
            + tok(toks, c.end_token->0 as int) + sp() + tok(toks, c.end_token->0 + 1) + tok(
            toks,
            c.span.end_token as int,
        ));
    }
}

// ---- lexical preservation ----

/// Characters the layout inserts: spaces and line breaks.
pub open spec fn blank(c: char) -> bool {
    c == ' ' || c == '\n'
}

/// The text with every inserted character taken out.
pub open spec fn strip_blanks(t: Seq<char>) -> Seq<char> {
    t.filter(|c: char| !blank(c))
}

/// The source texts of the tokens `ids`, back to back.
pub open spec fn ids_text(toks: Seq<Token>, ids: Seq<int>) -> Seq<char>
    decreases ids.len(),
{
    if ids.len() == 0 {
        seq![]
    } else {
        ids_text(toks, ids.drop_last()) + tok(toks, ids.last())
    }
}

pub open spec fn valid_ids(toks: Seq<Token>, ids: Seq<int>) -> bool {
    forall|k: int| 0 <= k < ids.len() ==> 0 <= #[trigger] ids[k] < toks.len()
}

/// Without its blanks, `t` is the text of the tokens `ids` of the stream.
#[verifier::opaque]
pub open spec fn copied(toks: Seq<Token>, t: Seq<char>, ids: Seq<int>) -> bool {
    strip_blanks(t) == ids_text(toks, ids) && valid_ids(toks, ids)
}

/// Without its blanks, `t` is a run of token texts of the stream.
pub open spec fn from_tokens(toks: Seq<Token>, t: Seq<char>) -> bool {
    exists|ids: Seq<int>| copied(toks, t, ids)
}

/// No token of the stream holds a space or a line break.
pub open spec fn plain_stream(toks: Seq<Token>) -> bool {
    forall|i: int, j: int|
        0 <= i < toks.len() && 0 <= j < tok(toks, i).len() ==> !blank(#[trigger] tok(toks, i)[j])
}

proof fn lemma_strip_plain(t: Seq<char>)
    requires
        forall|j: int| 0 <= j < t.len() ==> !blank(#[trigger] t[j]),
    ensures
        strip_blanks(t) == t,
    decreases t.len(),
{
    reveal(Seq::filter);
    if t.len() > 0 {
        lemma_strip_plain(t.drop_last());
        assert(t.drop_last().push(t.last()) =~= t);
    }
}

proof fn lemma_strip_blank(t: Seq<char>)
    requires
        forall|j: int| 0 <= j < t.len() ==> blank(#[trigger] t[j]),
    ensures
        strip_blanks(t) == Seq::<char>::empty(),
    decreases t.len(),
{
    reveal(Seq::filter);
    if t.len() > 0 {
        lemma_strip_blank(t.drop_last());
    }
}

proof fn lemma_indent_blank(level: nat)
    ensures
        forall|j: int| 0 <= j < indent(level).len() ==> blank(#[trigger] indent(level)[j]),
    decreases level,
{
    if level > 0 {
        let prev = indent((level - 1) as nat);
        lemma_indent_blank((level - 1) as nat);
        assert forall|j: int| 0 <= j < indent(level).len() implies blank(
            #[trigger] indent(level)[j],
        ) by {
            if j < prev.len() {
                assert(indent(level)[j] == prev[j]);
            } else {
                assert(indent(level)[j] == ' ');
            }
        }
    }
}

proof fn lemma_ids_text_add(toks: Seq<Token>, a: Seq<int>, b: Seq<int>)
    ensures
        ids_text(toks, a + b) == ids_text(toks, a) + ids_text(toks, b),
    decreases b.len(),
{
    if b.len() == 0 {
        assert(a + b =~= a);
        assert(ids_text(toks, a + b) =~= ids_text(toks, a) + ids_text(toks, b));
    } else {
        assert((a + b).drop_last() =~= a + b.drop_last());
        lemma_ids_text_add(toks, a, b.drop_last());
        assert(ids_text(toks, a + b) =~= ids_text(toks, a) + ids_text(toks, b));
    }
}

proof fn join(toks: Seq<Token>, a: Seq<char>, ra: Seq<int>, b: Seq<char>, rb: Seq<int>) -> (r: Seq<
    int,
>)
    requires
        copied(toks, a, ra),
        copied(toks, b, rb),
    ensures
        copied(toks, a + b, r),
{
    reveal(copied);
    broadcast use Seq::filter_distributes_over_add;

    lemma_ids_text_add(toks, ra, rb);
    assert forall|k: int| 0 <= k < (ra + rb).len() implies 0 <= #[trigger] (ra + rb)[k]
        < toks.len() by {
        if k < ra.len() {
            assert((ra + rb)[k] == ra[k]);
        } else {
            assert((ra + rb)[k] == rb[k - ra.len()]);
        }
    }
    ra + rb
}

proof fn lemma_sp_copied(toks: Seq<Token>)
    ensures
        copied(toks, sp(), seq![]),
{
    reveal(copied);
    lemma_strip_blank(sp());
}

proof fn lemma_brk_copied(toks: Seq<Token>, level: nat)
    ensures
        copied(toks, brk(level), seq![]),
{
    reveal(copied);
    lemma_indent_blank(level);
    assert forall|j: int| 0 <= j < brk(level).len() implies blank(#[trigger] brk(level)[j]) by {
        if j > 0 {
            assert(brk(level)[j] == indent(level)[j - 1]);
        }
    }
    lemma_strip_blank(brk(level));
}

proof fn lemma_empty_copied(toks: Seq<Token>)
    ensures
        copied(toks, seq![], seq![]),
{
    reveal(copied);
    lemma_strip_blank(seq![]);
}

proof fn lemma_tok_copied(toks: Seq<Token>, i: int)
    requires
        plain_stream(toks),
        0 <= i < toks.len(),
    ensures
        copied(toks, tok(toks, i), seq![i]),
{
    reveal(copied);
    assert forall|j: int| 0 <= j < tok(toks, i).len() implies !blank(#[trigger] tok(toks, i)[j]) by {
    }
    lemma_strip_plain(tok(toks, i));
    assert(seq![i].drop_last() =~= Seq::<int>::empty());
    assert(ids_text(toks, Seq::<int>::empty()) == Seq::<char>::empty());
    assert(ids_text(toks, seq![i]) == ids_text(toks, seq![i].drop_last()) + tok(toks, i));
    assert(ids_text(toks, seq![i]) =~= tok(toks, i));
}

proof fn lemma_span_copied(toks: Seq<Token>, s: int, e: int) -> (r: Seq<int>)
    requires
        plain_stream(toks),
        0 <= s <= e < toks.len(),
    ensures
        copied(toks, span_text(toks, s, e), r),
    decreases e - s,
{
    if s == e {
        lemma_tok_copied(toks, s);
        seq![s]
    } else {
        let r1 = lemma_span_copied(toks, s, e - 1);
        let g = crate::token::gap(toks, e);
        assert(copied(toks, g, seq![])) by {
            reveal(copied);
            lemma_strip_blank(g);
        }
        let r2 = join(toks, span_text(toks, s, e - 1), r1, g, seq![]);
        lemma_tok_copied(toks, e);
        join(toks, span_text(toks, s, e - 1) + g, r2, tok(toks, e), seq![e])
    }
}

proof fn lemma_name_copied(toks: Seq<Token>, n: Name) -> (r: Seq<int>)
    requires
        plain_stream(toks),
        name_in(toks, n),
    ensures
        copied(toks, name_text(toks, n), r),
{
    lemma_span_copied(toks, n.span.start_token as int, n.span.end_token as int)
}

proof fn lemma_comma_copied(toks: Seq<Token>, i: int) -> (r: Seq<int>)
    requires
        plain_stream(toks),
    ensures
        copied(toks, comma_text(toks, i), r),
{
    if comma_after(toks, i) {
        lemma_tok_copied(toks, i + 1);
        lemma_sp_copied(toks);
        join(toks, tok(toks, i + 1), seq![i + 1], sp(), seq![])
    } else {
        lemma_empty_copied(toks);
        seq![]
    }
}

proof fn lemma_labels_copied(toks: Seq<Token>, ls: Seq<Ident>, n: int) -> (r: Seq<int>)
    requires
        plain_stream(toks),
        wf_labels(toks, ls),
        n <= ls.len(),
    ensures
        copied(toks, labels_text(toks, ls, n), r),
    decreases n,
{
    if n <= 0 {
        lemma_empty_copied(toks);
        seq![]
    } else {
        let t = ls[n - 1].token as int;
        let r1 = lemma_labels_copied(toks, ls, n - 1);
        lemma_tok_copied(toks, t);
        let r2 = join(toks, labels_text(toks, ls, n - 1), r1, tok(toks, t), seq![t]);
        let r3 = lemma_comma_copied(toks, t);
        join(toks, labels_text(toks, ls, n - 1) + tok(toks, t), r2, comma_text(toks, t), r3)
    }
}

proof fn lemma_vunit_names_copied(toks: Seq<Token>, ns: Seq<Name>, n: int) -> (r: Seq<int>)
    requires
        plain_stream(toks),
        forall|i: int| 0 <= i < ns.len() ==> name_in(toks, #[trigger] ns[i]),
        n <= ns.len(),
    ensures
        copied(toks, vunit_names_text(toks, ns, n), r),
    decreases n,
{
    if n <= 0 {
        lemma_empty_copied(toks);
        seq![]
    } else {
        let m = ns[n - 1];
        let r1 = lemma_vunit_names_copied(toks, ns, n - 1);
        let r2 = lemma_name_copied(toks, m);
        let a = vunit_names_text(toks, ns, n - 1);
        let r3 = join(toks, a, r1, name_text(toks, m), r2);
        let r4 = lemma_comma_copied(toks, m.span.end_token as int);
        join(toks, a + name_text(toks, m), r3, comma_text(toks, m.span.end_token as int), r4)
    }
}

proof fn lemma_vunit_copied(toks: Seq<Token>, v: VUnitBindingIndication) -> (r: Seq<int>)
    requires
        plain_stream(toks),
        wf_vunit(toks, v),
    ensures
        copied(toks, vunit_text(toks, v), r),
{
    let s = v.span.start_token as int;
    lemma_tok_copied(toks, s);
    lemma_tok_copied(toks, s + 1);
    lemma_tok_copied(toks, v.span.end_token as int);
    lemma_sp_copied(toks);
    let r1 = join(toks, tok(toks, s), seq![s], sp(), seq![]);
    let a1 = tok(toks, s) + sp();
    let r2 = join(toks, a1, r1, tok(toks, s + 1), seq![s + 1]);
    let a2 = a1 + tok(toks, s + 1);
    let r3 = join(toks, a2, r2, sp(), seq![]);
    let a3 = a2 + sp();
    let names = vunit_names_text(toks, v.vunit_list@, v.vunit_list@.len() as int);
    let rn = lemma_vunit_names_copied(toks, v.vunit_list@, v.vunit_list@.len() as int);
    let r4 = join(toks, a3, r3, names, rn);
    join(toks, a3 + names, r4, tok(toks, v.span.end_token as int), seq![v.span.end_token as int])
}

proof fn lemma_vunits_copied(
    toks: Seq<Token>,
    vs: Seq<VUnitBindingIndication>,
    n: int,
    level: nat,
) -> (r: Seq<int>)
    requires
        plain_stream(toks),
        wf_vunits(toks, vs),
        n <= vs.len(),
    ensures
        copied(toks, vunits_text(toks, vs, n, level), r),
    decreases n,
{
    if n <= 0 {
        lemma_empty_copied(toks);
        seq![]
    } else {
        let r1 = lemma_vunits_copied(toks, vs, n - 1, level);
        lemma_brk_copied(toks, level);
        let a = vunits_text(toks, vs, n - 1, level);
        let r2 = join(toks, a, r1, brk(level), seq![]);
        let r3 = lemma_vunit_copied(toks, vs[n - 1]);
        join(toks, a + brk(level), r2, vunit_text(toks, vs[n - 1]), r3)
    }
}

proof fn lemma_comp_spec_copied(toks: Seq<Token>, c: ComponentSpecification) -> (r: Seq<int>)
    requires
        plain_stream(toks),
        wf_comp_spec(toks, c),
    ensures
        copied(toks, comp_spec_text(toks, c), r),
{
    let s = c.span.start_token as int;
    lemma_tok_copied(toks, s);
    lemma_sp_copied(toks);
    let r1 = join(toks, tok(toks, s), seq![s], sp(), seq![]);
    let a1 = tok(toks, s) + sp();
    let (target, rt) = match c.instantiation_list {
        InstantiationList::Labels(ls) => {
            let rl = lemma_labels_copied(toks, ls@, ls@.len() as int);
            (labels_text(toks, ls@, ls@.len() as int), rl)
        },
        _ => {
            lemma_tok_copied(toks, s + 1);
            (tok(toks, s + 1), seq![s + 1])
        },
    };
    let r2 = join(toks, a1, r1, target, rt);
    let a2 = a1 + target;
    lemma_tok_copied(toks, c.colon_token as int);
    let r3 = join(toks, a2, r2, tok(toks, c.colon_token as int), seq![c.colon_token as int]);
    let a3 = a2 + tok(toks, c.colon_token as int);
    let r4 = join(toks, a3, r3, sp(), seq![]);
    let rn = lemma_name_copied(toks, c.component_name);
    join(toks, a3 + sp(), r4, name_text(toks, c.component_name), rn)
}

proof fn lemma_aspect_copied(toks: Seq<Token>, u: int, a: EntityAspect) -> (r: Seq<int>)
    requires
        plain_stream(toks),
        0 <= u,
        wf_aspect(toks, u, a),
    ensures
        copied(toks, aspect_text(toks, u, a), r),
{
    lemma_sp_copied(toks);
    lemma_tok_copied(toks, u + 1);
    let r1 = join(toks, sp(), seq![], tok(toks, u + 1), seq![u + 1]);
    let a1 = sp() + tok(toks, u + 1);
    let (rest, rr) = match a {
        EntityAspect::Entity(n, arch) => {
            let rn = lemma_name_copied(toks, n);
            let r2 = join(toks, sp(), seq![], name_text(toks, n), rn);
            match arch {
                Some(id) => {
                    let t = id.token as int;
                    lemma_tok_copied(toks, t - 1);
                    lemma_tok_copied(toks, t);
                    lemma_tok_copied(toks, t + 1);
                    let p1 = join(toks, tok(toks, t - 1), seq![t - 1], tok(toks, t), seq![t]);
                    let p2 = join(toks, tok(toks, t - 1) + tok(toks, t), p1, tok(toks, t + 1), seq![t + 1]);
                    let parens = tok(toks, t - 1) + tok(toks, t) + tok(toks, t + 1);
                    (sp() + name_text(toks, n) + parens, join(toks, sp() + name_text(toks, n), r2, parens, p2))
                },
                None => {
                    lemma_empty_copied(toks);
                    (sp() + name_text(toks, n) + seq![], join(toks, sp() + name_text(toks, n), r2, seq![], seq![]))
                },
            }
        },
        EntityAspect::Configuration(n) => {
            let rn = lemma_name_copied(toks, n);
            (sp() + name_text(toks, n), join(toks, sp(), seq![], name_text(toks, n), rn))
        },
        EntityAspect::Open => {
            lemma_empty_copied(toks);
            (seq![], seq![])
        },
    };
    join(toks, a1, r1, rest, rr)
}

proof fn lemma_map_copied(toks: Seq<Token>, m: Option<MapAspect>, level: nat) -> (r: Seq<int>)
    requires
        plain_stream(toks),
        wf_map(toks, m),
    ensures
        copied(toks, map_text(toks, m, level), r),
{
    match m {
        Some(m) => {
            lemma_brk_copied(toks, level + 1);
            let rs = lemma_span_copied(toks, m.span.start_token as int, m.span.end_token as int);
            join(
                toks,
                brk(level + 1),
                seq![],
                span_text(toks, m.span.start_token as int, m.span.end_token as int),
                rs,
            )
        },
        None => {
            lemma_empty_copied(toks);
            seq![]
        },
    }
}

proof fn lemma_binding_copied(toks: Seq<Token>, b: BindingIndication, level: nat) -> (r: Seq<int>)
    requires
        plain_stream(toks),
        wf_binding(toks, b, level),
    ensures
        copied(toks, binding_text(toks, b, level), r),
{
    let s = b.span.start_token as int;
    lemma_tok_copied(toks, s);
    let (asp, ra) = match b.entity_aspect {
        Some(a) => (aspect_text(toks, s, a), lemma_aspect_copied(toks, s, a)),
        None => {
            lemma_empty_copied(toks);
            (seq![], seq![])
        },
    };
    let r1 = join(toks, tok(toks, s), seq![s], asp, ra);
    let a1 = tok(toks, s) + asp;
    let rg = lemma_map_copied(toks, b.generic_map, level);
    let r2 = join(toks, a1, r1, map_text(toks, b.generic_map, level), rg);
    let a2 = a1 + map_text(toks, b.generic_map, level);
    let rp = lemma_map_copied(toks, b.port_map, level);
    let r3 = join(toks, a2, r2, map_text(toks, b.port_map, level), rp);
    let a3 = a2 + map_text(toks, b.port_map, level);
    lemma_tok_copied(toks, b.span.end_token as int);
    join(toks, a3, r3, tok(toks, b.span.end_token as int), seq![b.span.end_token as int])
}

proof fn lemma_end_for_copied(toks: Seq<Token>, span: TokenSpan, level: nat) -> (r: Seq<int>)
    requires
        plain_stream(toks),
        wf_end_for(toks, span),
    ensures
        copied(toks, brk(level) + end_for_text(toks, span), r),
{
    let e = span.end_token as int;
    lemma_brk_copied(toks, level);
    lemma_tok_copied(toks, e - 2);
    lemma_tok_copied(toks, e - 1);
    lemma_tok_copied(toks, e);
    lemma_sp_copied(toks);
    let r1 = join(toks, brk(level), seq![], tok(toks, e - 2), seq![e - 2]);
    let a1 = brk(level) + tok(toks, e - 2);
    let r2 = join(toks, a1, r1, sp(), seq![]);
    let r3 = join(toks, a1 + sp(), r2, tok(toks, e - 1), seq![e - 1]);
    let r4 = join(toks, a1 + sp() + tok(toks, e - 1), r3, tok(toks, e), seq![e]);
    assert(brk(level) + end_for_text(toks, span) =~= a1 + sp() + tok(toks, e - 1) + tok(toks, e));
    r4
}

proof fn lemma_block_copied(toks: Seq<Token>, b: BlockConfiguration, level: nat) -> (r: Seq<int>)
    requires
        plain_stream(toks),
        wf_block(toks, b, level),
    ensures
        copied(toks, block_text(toks, b, level), r),
    decreases b,
{
    let s = b.span.start_token as int;
    lemma_tok_copied(toks, s);
    lemma_sp_copied(toks);
    let r1 = join(toks, tok(toks, s), seq![s], sp(), seq![]);
    let a1 = tok(toks, s) + sp();
    let rn = lemma_name_copied(toks, b.block_spec);
    let r2 = join(toks, a1, r1, name_text(toks, b.block_spec), rn);
    let a2 = a1 + name_text(toks, b.block_spec);
    let ri = lemma_items_copied(toks, b.items@, level + 1);
    let r3 = join(toks, a2, r2, items_text(toks, b.items@, level + 1), ri);
    let a3 = a2 + items_text(toks, b.items@, level + 1);
    let re = lemma_end_for_copied(toks, b.span, level);
    let r4 = join(toks, a3, r3, brk(level) + end_for_text(toks, b.span), re);
    assert(block_text(toks, b, level) =~= a3 + (brk(level) + end_for_text(toks, b.span)));
    r4
}

proof fn lemma_items_copied(toks: Seq<Token>, items: Seq<ConfigurationItem>, level: nat) -> (r: Seq<
    int,
>)
    requires
        plain_stream(toks),
        wf_items(toks, items, level),
    ensures
        copied(toks, items_text(toks, items, level), r),
    decreases items,
{
    if items.len() == 0 {
        lemma_empty_copied(toks);
        seq![]
    } else {
        let r1 = lemma_items_copied(toks, items.drop_last(), level);
        let a1 = items_text(toks, items.drop_last(), level);
        lemma_brk_copied(toks, level);
        let r2 = join(toks, a1, r1, brk(level), seq![]);
        let last = items.last();
        assert(wf_item(toks, last, level));
        let r3 = match last {
            ConfigurationItem::Block(b) => lemma_block_copied(toks, b, level),
            ConfigurationItem::Component(c) => lemma_comp_copied(toks, c, level),
        };
        join(toks, a1 + brk(level), r2, item_text(toks, last, level), r3)
    }
}

proof fn lemma_comp_copied(toks: Seq<Token>, c: ComponentConfiguration, level: nat) -> (r: Seq<int>)
    requires
        plain_stream(toks),
        wf_comp(toks, c, level),
    ensures
        copied(toks, comp_config_text(toks, c, level), r),
    decreases c,
{
    let r1 = lemma_comp_spec_copied(toks, c.spec);
    let a1 = comp_spec_text(toks, c.spec);
    lemma_brk_copied(toks, level + 1);
    let rb = match c.bind_ind {
        Some(b) => {
            let rb = lemma_binding_copied(toks, b, level + 1);
            join(toks, brk(level + 1), seq![], binding_text(toks, b, level + 1), rb)
        },
        None => {
            lemma_empty_copied(toks);
            seq![]
        },
    };
    let r2 = join(toks, a1, r1, binding_part(toks, c.bind_ind, level), rb);
    let a2 = a1 + binding_part(toks, c.bind_ind, level);
    let rv = lemma_vunits_copied(
        toks,
        c.vunit_bind_inds@,
        c.vunit_bind_inds@.len() as int,
        level + 1,
    );
    let r3 = join(toks, a2, r2, all_vunits_text(toks, c.vunit_bind_inds@, level + 1), rv);
    let a3 = a2 + all_vunits_text(toks, c.vunit_bind_inds@, level + 1);
    let rk = match c.block_config {
        Some(b) => {
            let rk = lemma_block_copied(toks, b, level + 1);
            join(toks, brk(level + 1), seq![], block_text(toks, b, level + 1), rk)
        },
        None => {
            lemma_empty_copied(toks);
            seq![]
        },
    };
    let r4 = join(toks, a3, r3, block_part(toks, c.block_config, level), rk);
    let a4 = a3 + block_part(toks, c.block_config, level);
    let re = lemma_end_for_copied(toks, c.span, level);
    let r5 = join(toks, a4, r4, brk(level) + end_for_text(toks, c.span), re);
    assert(comp_config_text(toks, c, level) =~= a4 + (brk(level) + end_for_text(toks, c.span)));
    r5
}

proof fn lemma_context_copied(toks: Seq<Token>, cs: Seq<ContextItem>, n: int, level: nat) -> (r: Seq<
    int,
>)
    requires
        plain_stream(toks),
        forall|i: int| 0 <= i < cs.len() ==> span_in(toks, (#[trigger] cs[i]).span),
        n <= cs.len(),
    ensures
        copied(toks, context_text(toks, cs, n, level), r),
    decreases n,
{
    if n <= 0 {
        lemma_empty_copied(toks);
        seq![]
    } else {
        let sp_ = cs[n - 1].span;
        assert(span_in(toks, sp_));
        let r1 = lemma_context_copied(toks, cs, n - 1, level);
        let a1 = context_text(toks, cs, n - 1, level);
        let item = span_text(toks, sp_.start_token as int, sp_.end_token as int);
        let ri = lemma_span_copied(toks, sp_.start_token as int, sp_.end_token as int);
        let r2 = join(toks, a1, r1, item, ri);
        lemma_brk_copied(toks, level);
        join(toks, a1 + item, r2, brk(level), seq![])
    }
}

proof fn lemma_decls_copied(toks: Seq<Token>, ds: Seq<Declaration>, n: int, level: nat) -> (r: Seq<
    int,
>)
    requires
        plain_stream(toks),
        forall|i: int| 0 <= i < ds.len() ==> span_in(toks, (#[trigger] ds[i]).span),
        n <= ds.len(),
    ensures
        copied(toks, decls_text(toks, ds, n, level), r),
    decreases n,
{
    if n <= 0 {
        lemma_empty_copied(toks);
        seq![]
    } else {
        let sp_ = ds[n - 1].span;
        assert(span_in(toks, sp_));
        let r1 = lemma_decls_copied(toks, ds, n - 1, level);
        let a1 = decls_text(toks, ds, n - 1, level);
        lemma_brk_copied(toks, level);
        let r2 = join(toks, a1, r1, brk(level), seq![]);
        let item = span_text(toks, sp_.start_token as int, sp_.end_token as int);
        let ri = lemma_span_copied(toks, sp_.start_token as int, sp_.end_token as int);
        join(toks, a1 + brk(level), r2, item, ri)
    }
}

/// Every identifier, label and keyword a configuration declaration prints is
/// the exact source text of one of its tokens: taking out the spaces and line
/// breaks the layout inserted leaves nothing but token texts, back to back.
pub proof fn lemma_lexical_preservation(toks: Seq<Token>, c: ConfigurationDeclaration, level: nat)
    requires
        plain_stream(toks),
        wf_config(toks, c, level),
    ensures
        from_tokens(toks, config_text(toks, c, level)),
{
    let s = c.span.start_token as int;
    let r1 = lemma_context_copied(
        toks,
        c.context_clause@,
        c.context_clause@.len() as int,
        level,
    );
    let a1 = context_text(toks, c.context_clause@, c.context_clause@.len() as int, level);
    let rh = lemma_span_copied(toks, s, s + 4);
    let r2 = join(toks, a1, r1, span_text(toks, s, s + 4), rh);
    let a2 = a1 + span_text(toks, s, s + 4);
    let rd = lemma_decls_copied(toks, c.decl@, c.decl@.len() as int, level + 1);
    let r3 = join(toks, a2, r2, decls_text(toks, c.decl@, c.decl@.len() as int, level + 1), rd);
    let a3 = a2 + decls_text(toks, c.decl@, c.decl@.len() as int, level + 1);
    let rv = lemma_vunits_copied(
        toks,
        c.vunit_bind_inds@,
        c.vunit_bind_inds@.len() as int,
        level + 1,
    );
    let r4 = join(toks, a3, r3, all_vunits_text(toks, c.vunit_bind_inds@, level + 1), rv);
    let a4 = a3 + all_vunits_text(toks, c.vunit_bind_inds@, level + 1);
    lemma_brk_copied(toks, level + 1);
    let r5 = join(toks, a4, r4, brk(level + 1), seq![]);
    let a5 = a4 + brk(level + 1);
    let rb = lemma_block_copied(toks, c.block_config, level + 1);
    let r6 = join(toks, a5, r5, block_text(toks, c.block_config, level + 1), rb);
    let a6 = a5 + block_text(toks, c.block_config, level + 1);
    lemma_brk_copied(toks, level);
    let r7 = join(toks, a6, r6, brk(level), seq![]);
    let a7 = a6 + brk(level);
    let e = c.span.end_token as int;
    let rc = lemma_span_copied(toks, c.end_token as int, e - 1);
    let r8 = join(toks, a7, r7, span_text(toks, c.end_token as int, e - 1), rc);
    let a8 = a7 + span_text(toks, c.end_token as int, e - 1);
    lemma_tok_copied(toks, e);
    let r9 = join(toks, a8, r8, tok(toks, e), seq![e]);
    assert(config_text(toks, c, level) == a8 + tok(toks, e));
    assert(copied(toks, config_text(toks, c, level), r9));
}

} // verus!

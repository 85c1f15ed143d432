//! The formatter over one token stream, and the token-copying primitives the
//! configuration printers are built from.
use crate::ast::{ContextItem, Declaration, Ident, MapAspect, Name};
use crate::buffer::Buffer;
use crate::layout::{comma_text, context_text, decls_text, labels_text, name_text, tok, wf_labels};
use crate::token::{comma_after, needs_space, span_in, span_text, Kind, Token, TokenSpan};
use vstd::prelude::*;

verus! {

/// Prints syntax-tree nodes by copying their tokens out of `tokens`.
pub struct VHDLFormatter<'a> {
    pub tokens: &'a [Token],
}

impl<'a> VHDLFormatter<'a> {
    /// The token stream the tree was parsed from.
    pub open spec fn toks(&self) -> Seq<Token> {
        self.tokens@
    }

    pub fn new(tokens: &'a [Token]) -> (r: VHDLFormatter<'a>)
        ensures
            r.toks() == tokens@,
    {
        VHDLFormatter { tokens }
    }

    /// The token with id `id`, if the stream has one.
    pub fn get_token(&self, id: usize) -> (r: Option<&Token>)
        ensures
            id < self.toks().len() ==> r == Some(&self.toks()[id as int]),
            id >= self.toks().len() ==> r is None,
    {
        if id < self.tokens.len() {
            Some(&self.tokens[id])
        } else {
            None
        }
    }

    /// Whether the token after `id` is a comma.
    pub fn comma_follows(&self, id: usize) -> (r: bool)
        requires
            id < self.toks().len(),
        ensures
            r == comma_after(self.toks(), id as int),
    {
        let n: usize = self.tokens.len();
        if id < n - 1 {
            match self.get_token(id + 1) {
                Some(t) => matches!(t.kind, Kind::Comma),
                None => false,
            }
        } else {
            false
        }
    }

    /// Copies the text of token `id`.
    pub fn format_token_id(&self, id: usize, buffer: &mut Buffer)
        requires
            id < self.toks().len(),
        ensures
            final(buffer).text() == old(buffer).text() + tok(self.toks(), id as int),
            final(buffer).level() == old(buffer).level(),
    {
        buffer.push_str(self.tokens[id].text.as_str());
    }

    /// Copies the tokens of `span` on one line, spaced canonically.
    pub fn format_token_span(&self, span: TokenSpan, buffer: &mut Buffer)
        requires
            span_in(self.toks(), span),
        ensures
            final(buffer).text() == old(buffer).text() + span_text(
                self.toks(),
                span.start_token as int,
                span.end_token as int,
            ),
            final(buffer).level() == old(buffer).level(),
    {
        let ghost toks = self.toks();
        self.format_token_id(span.start_token, buffer);
        let mut i: usize = span.start_token;
        while i < span.end_token
            invariant
                span.start_token <= i <= span.end_token,
                span.end_token < toks.len(),
                toks == self.toks(),
                buffer.text() == old(buffer).text() + span_text(
                    toks,
                    span.start_token as int,
                    i as int,
                ),
                buffer.level() == old(buffer).level(),
            decreases span.end_token - i,
        {
            let ghost before = buffer.text();
            i = i + 1;
            if needs_space(self.tokens[i - 1].kind, self.tokens[i].kind) {
                buffer.push_whitespace();
            }
            self.format_token_id(i, buffer);
            assert(buffer.text() =~= old(buffer).text() + span_text(
                toks,
                span.start_token as int,
                i as int,
            ));
        }
    }

    /// Copies the tokens of a name.
    pub fn format_name(&self, name: &Name, buffer: &mut Buffer)
        requires
            span_in(self.toks(), name.span),
        ensures
            final(buffer).text() == old(buffer).text() + name_text(self.toks(), *name),
            final(buffer).level() == old(buffer).level(),
    {
        self.format_token_span(name.span, buffer);
    }

    /// Copies a map aspect on one line.
    pub fn format_map_aspect(&self, map_aspect: &MapAspect, buffer: &mut Buffer)
        requires
            span_in(self.toks(), map_aspect.span),
        ensures
            final(buffer).text() == old(buffer).text() + span_text(
                self.toks(),
                map_aspect.span.start_token as int,
                map_aspect.span.end_token as int,
            ),
            final(buffer).level() == old(buffer).level(),
    {
        self.format_token_span(map_aspect.span, buffer);
    }

    /// Copies the comma after token `id`, and a space, where the source has one.
    pub fn format_comma_after(&self, id: usize, buffer: &mut Buffer)
        requires
            id < self.toks().len(),
        ensures
            final(buffer).text() == old(buffer).text() + comma_text(self.toks(), id as int),
            final(buffer).level() == old(buffer).level(),
    {
        // The stream's length is a usize, so `id + 1` cannot overflow.
        let n: usize = self.tokens.len();
        if self.comma_follows(id) {
            assert(id + 1 < n);
            self.format_token_id(id + 1, buffer);
            buffer.push_whitespace();
        } else {
            assert(old(buffer).text() + comma_text(self.toks(), id as int) =~= old(
                buffer,
            ).text());
        }
    }

    /// Copies a list of labels, keeping the commas between them.
    pub fn format_ident_list(&self, idents: &Vec<Ident>, buffer: &mut Buffer)
        requires
            wf_labels(self.toks(), idents@),
        ensures
            final(buffer).text() == old(buffer).text() + labels_text(
                self.toks(),
                idents@,
                idents@.len() as int,
            ),
            final(buffer).level() == old(buffer).level(),
    {
        let ghost toks = self.toks();
        let mut i: usize = 0;
        assert(old(buffer).text() =~= old(buffer).text() + labels_text(toks, idents@, 0));
        while i < idents.len()
            invariant
                i <= idents@.len(),
                toks == self.toks(),
                wf_labels(toks, idents@),
                buffer.text() == old(buffer).text() + labels_text(toks, idents@, i as int),
                buffer.level() == old(buffer).level(),
            decreases idents@.len() - i,
        {
            assert(idents@[i as int].token < toks.len());
            self.format_token_id(idents[i].token, buffer);
            self.format_comma_after(idents[i].token, buffer);
            i = i + 1;
            assert(buffer.text() =~= old(buffer).text() + labels_text(toks, idents@, i as int));
        }
    }

    /// Each context item, followed by a line break.
    pub fn format_context_clause(&self, items: &Vec<ContextItem>, buffer: &mut Buffer)
        requires
            forall|i: int| 0 <= i < items@.len() ==> span_in(self.toks(), (#[trigger] items@[i]).span),
        ensures
            final(buffer).text() == old(buffer).text() + context_text(
                self.toks(),
                items@,
                items@.len() as int,
                old(buffer).level(),
            ),
            final(buffer).level() == old(buffer).level(),
    {
        let ghost toks = self.toks();
        let ghost level = old(buffer).level();
        let mut i: usize = 0;
        assert(old(buffer).text() =~= old(buffer).text() + context_text(toks, items@, 0, level));
        while i < items.len()
            invariant
                i <= items@.len(),
                toks == self.toks(),
                forall|j: int| 0 <= j < items@.len() ==> span_in(toks, (#[trigger] items@[j]).span),
                buffer.text() == old(buffer).text() + context_text(toks, items@, i as int, level),
                buffer.level() == level,
            decreases items@.len() - i,
        {
            assert(span_in(toks, items@[i as int].span));
            self.format_token_span(items[i].span, buffer);
            buffer.line_break();
            i = i + 1;
            assert(buffer.text() =~= old(buffer).text() + context_text(
                toks,
                items@,
                i as int,
                level,
            ));
        }
    }

    /// Each declaration on a new line.
    pub fn format_declarations(&self, decls: &Vec<Declaration>, buffer: &mut Buffer)
        requires
            forall|i: int| 0 <= i < decls@.len() ==> span_in(self.toks(), (#[trigger] decls@[i]).span),
        ensures
            final(buffer).text() == old(buffer).text() + decls_text(
                self.toks(),
                decls@,
                decls@.len() as int,
                old(buffer).level(),
            ),
            final(buffer).level() == old(buffer).level(),
    {
        let ghost toks = self.toks();
        let ghost level = old(buffer).level();
        let mut i: usize = 0;
        assert(old(buffer).text() =~= old(buffer).text() + decls_text(toks, decls@, 0, level));
        while i < decls.len()
            invariant
                i <= decls@.len(),
                toks == self.toks(),
                forall|j: int| 0 <= j < decls@.len() ==> span_in(toks, (#[trigger] decls@[j]).span),
                buffer.text() == old(buffer).text() + decls_text(toks, decls@, i as int, level),
                buffer.level() == level,
            decreases decls@.len() - i,
        {
            assert(span_in(toks, decls@[i as int].span));
            buffer.line_break();
            self.format_token_span(decls[i].span, buffer);
            i = i + 1;
            assert(buffer.text() =~= old(buffer).text() + decls_text(
                toks,
                decls@,
                i as int,
                level,
            ));
        }
    }
}

} // verus!

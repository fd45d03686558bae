//! HTML rendering of the produced tree.
//!
//! The context owns the output buffer, the footnote bodies gathered by the
//! parse, counters that only increase, variable scopes, and the injected
//! collaborator data (localized messages, user info). Rendering only ever
//! appends to the buffer and leaves the collaborator data untouched.

use vstd::prelude::*;

use crate::element::{
    clone_elements, AttributeMap, Container, ContainerType, DefinitionListItem, Element, Embed,
    ListItem, ListType, Tab,
};
use crate::outside::{latex_render, replace_all, str_replace};
use crate::strings::{dec_seq, str_eq, u64_to_dec};
use crate::variables::{scope_lookup, VariableScopes};

verus! {

broadcast use vstd::std_specs::vec::axiom_vec_index_decreases, vstd::std_specs::vec::axiom_vec_decreases_to_view;

/// Information about one user, as the host's user service reports it.
#[derive(Debug, PartialEq)]
pub struct UserInfo {
    pub user_id: u64,
    pub user_name: String,
    pub user_profile_url: String,
    pub user_karma: u64,
    pub user_avatar_data: String,
}

/// A deterministic generator for document-unique markup identifiers.
#[derive(Debug)]
pub struct IdGenerator {
    pub counter: u64,
}

impl IdGenerator {
    /// Produce the next identifier: `wj-id-` followed by a counter value.
    pub fn generate_html_id(&mut self) -> (r: String)
        ensures
            r@ == "wj-id-"@ + dec_seq(old(self).counter as int),
            final(self).counter as int == if old(self).counter < u64::MAX {
                old(self).counter as int + 1
            } else {
                u64::MAX as int
            },
    {
        let mut id = String::new();
        id.append("wj-id-");
        let digits = u64_to_dec(self.counter);
        id.append(digits.as_str());
        if self.counter < u64::MAX {
            self.counter = self.counter + 1;
        }
        id
    }
}

/// Generate a run of fresh markup identifiers: consecutive counter values,
/// each rendered in decimal behind the fixed prefix.
pub fn generate_ids(ids: &mut IdGenerator, len: usize) -> (r: Vec<String>)
    ensures
        r@.len() == len,
        final(ids).counter >= old(ids).counter,
        old(ids).counter as int + len <= u64::MAX ==> {
            &&& final(ids).counter as int == old(ids).counter as int + len
            &&& forall|i: int|
                0 <= i < len ==> (#[trigger] r@[i])@ == "wj-id-"@ + dec_seq(
                    old(ids).counter as int + i,
                )
        },
{
    let mut out: Vec<String> = Vec::new();
    let mut i: usize = 0;
    while i < len
        invariant
            0 <= i <= len,
            out@.len() == i,
            ids.counter >= old(ids).counter,
            old(ids).counter as int + len <= u64::MAX ==> {
                &&& ids.counter as int == old(ids).counter as int + i
                &&& forall|j: int|
                    0 <= j < i ==> (#[trigger] out@[j])@ == "wj-id-"@ + dec_seq(
                        old(ids).counter as int + j,
                    )
            },
        decreases len - i,
    {
        let id = ids.generate_html_id();
        out.push(id);
        i = i + 1;
    }
    out
}

/// The first user bundle recorded under `name`, if any.
pub open spec fn user_lookup(users: Seq<(String, UserInfo)>, name: Seq<char>) -> Option<UserInfo>
    decreases users,
{
    if users.len() == 0 {
        None
    } else if users[0].0@ == name {
        Some(users[0].1)
    } else {
        user_lookup(users.drop_first(), name)
    }
}

proof fn lemma_user_lookup_skip(users: Seq<(String, UserInfo)>, name: Seq<char>, j: int)
    requires
        0 <= j <= users.len(),
        forall|i: int| 0 <= i < j ==> #[trigger] users[i].0@ != name,
    ensures
        user_lookup(users, name) == user_lookup(users.skip(j), name),
    decreases j,
{
    if j > 0 {
        lemma_user_lookup_skip(users, name, j - 1);
        assert(users.skip(j - 1).len() > 0);
        assert(users.skip(j - 1)[0] == users[j - 1]);
        assert(users.skip(j - 1).drop_first() =~= users.skip(j));
        assert(user_lookup(users.skip(j - 1), name) == user_lookup(users.skip(j), name));
    } else {
        assert(users.skip(0) =~= users);
    }
}

/// Text with HTML metacharacters replaced by entities.
pub open spec fn escape_html(s: Seq<char>) -> Seq<char> {
    str_replace(
        str_replace(str_replace(str_replace(s, "&"@, "&amp;"@), "<"@, "&lt;"@), ">"@, "&gt;"@),
        "\""@,
        "&quot;"@,
    )
}

/// The message the catalog holds for a key, or the key itself.
pub open spec fn message_of(messages: Seq<(String, String)>, key: Seq<char>) -> Seq<char> {
    match scope_lookup(messages, key) {
        Some(v) => v,
        None => key,
    }
}

/// The rendering context: output buffer, gathered state, and collaborator
/// data.
#[derive(Debug)]
pub struct HtmlContext {
    /// The output buffer; rendering only appends.
    pub output: String,
    /// Footnote bodies gathered during the parse, in order.
    pub footnotes: Vec<Vec<Element>>,
    /// How many footnote references have been rendered.
    pub footnote_index: u64,
    /// How many numbered equations have been rendered.
    pub equation_index: u64,
    /// Variable scopes, pushed and popped around include sites.
    pub variables: VariableScopes,
    /// The language messages are looked up for.
    pub language: String,
    /// The localized message catalog, as injected data.
    pub messages: Vec<(String, String)>,
    /// The user info service, as injected data.
    pub users: Vec<(String, UserInfo)>,
    /// The identifier generator.
    pub ids: IdGenerator,
    /// Whether a footnote block is being rendered, to refuse nesting one
    /// inside itself.
    pub in_footnote_block: bool,
    /// Whether a footnote body inside the block is being rendered.
    pub rendering_footnote_contents: bool,
}

/// The collaborator data and scopes a rendering step leaves untouched.
pub open spec fn render_preserved(a: &HtmlContext, b: &HtmlContext) -> bool {
    &&& a.language@ == b.language@
    &&& a.messages@ == b.messages@
    &&& a.users@ == b.users@
    &&& a.footnotes@ == b.footnotes@
    &&& a.variables.scopes@ == b.variables.scopes@
    &&& a.in_footnote_block == b.in_footnote_block
    &&& a.rendering_footnote_contents == b.rendering_footnote_contents
    &&& a.footnote_index <= b.footnote_index
    &&& a.equation_index <= b.equation_index
    &&& a.ids.counter <= b.ids.counter
}

/// The measure that bounds footnote-block recursion: rendering inside a
/// footnote block refuses to open another one.
pub open spec fn block_budget(ctx: &HtmlContext) -> int {
    if ctx.rendering_footnote_contents {
        0int
    } else if ctx.in_footnote_block {
        1int
    } else {
        2int
    }
}

pub proof fn lemma_render_preserved_trans(a: &HtmlContext, b: &HtmlContext, c: &HtmlContext)
    requires
        render_preserved(a, b),
        render_preserved(b, c),
    ensures
        render_preserved(a, c),
{
}

pub proof fn lemma_prefix_trans(a: Seq<char>, b: Seq<char>, c: Seq<char>)
    requires
        a.is_prefix_of(b),
        b.is_prefix_of(c),
    ensures
        a.is_prefix_of(c),
{
    assert(a =~= c.subrange(0, a.len() as int));
}

impl HtmlContext {
    /// A fresh context over the given collaborator data.
    pub fn new(
        footnotes: Vec<Vec<Element>>,
        language: String,
        messages: Vec<(String, String)>,
        users: Vec<(String, UserInfo)>,
    ) -> (r: HtmlContext)
        ensures
            r.output@ == Seq::<char>::empty(),
            r.footnotes@ == footnotes@,
            r.footnote_index == 0,
            r.equation_index == 0,
            r.variables.scopes@ == Seq::<crate::variables::VariableMap>::empty(),
            r.language@ == language@,
            r.messages@ == messages@,
            r.users@ == users@,
            r.ids.counter == 0,
            !r.in_footnote_block,
            !r.rendering_footnote_contents,
    {
        HtmlContext {
            output: String::new(),
            footnotes,
            footnote_index: 0,
            equation_index: 0,
            variables: VariableScopes::new(),
            language,
            messages,
            users,
            ids: IdGenerator { counter: 0 },
            in_footnote_block: false,
            rendering_footnote_contents: false,
        }
    }

    /// Append raw markup to the output.
    pub fn push_raw(&mut self, s: &str)
        ensures
            final(self).output@ == old(self).output@ + s@,
            old(self).output@.is_prefix_of(final(self).output@),
            render_preserved(old(self), final(self)),
            final(self).footnote_index == old(self).footnote_index,
            final(self).equation_index == old(self).equation_index,
            final(self).ids.counter == old(self).ids.counter,
    {
        self.output.append(s);
        proof {
            lemma_prefix_append(old(self).output@, s@);
        }
    }

    /// Append text to the output, escaping HTML metacharacters.
    pub fn push_escaped(&mut self, s: &str)
        ensures
            final(self).output@ == old(self).output@ + escape_html(s@),
            old(self).output@.is_prefix_of(final(self).output@),
            render_preserved(old(self), final(self)),
            final(self).footnote_index == old(self).footnote_index,
            final(self).equation_index == old(self).equation_index,
            final(self).ids.counter == old(self).ids.counter,
    {
        let step1 = replace_all(s, "&", "&amp;");
        let step2 = replace_all(step1.as_str(), "<", "&lt;");
        let step3 = replace_all(step2.as_str(), ">", "&gt;");
        let step4 = replace_all(step3.as_str(), "\"", "&quot;");
        self.push_raw(step4.as_str());
    }

    /// The localized message for a key, or the key itself when the catalog
    /// lacks it.
    #[verifier::loop_isolation(false)]
    pub fn get_message(&self, key: &str) -> (r: String)
        ensures
            r@ == message_of(self.messages@, key@),
    {
        let ghost entries = self.messages@;
        let mut j: usize = 0;
        while j < self.messages.len()
            invariant
                0 <= j <= entries.len(),
                forall|i: int| 0 <= i < j ==> #[trigger] entries[i].0@ != key@,
            decreases entries.len() - j,
        {
            if str_eq(self.messages[j].0.as_str(), key) {
                proof {
                    crate::variables::lemma_scope_lookup_skip(entries, key@, j as int);
                    assert(entries.skip(j as int)[0] == entries[j as int]);
                }
                return self.messages[j].1.clone();
            }
            j = j + 1;
        }
        proof {
            crate::variables::lemma_scope_lookup_skip(entries, key@, entries.len() as int);
            assert(entries.skip(entries.len() as int).len() == 0);
        }
        let mut owned = String::new();
        owned.append(key);
        owned
    }

    /// The user info recorded for a name, if any.
    #[verifier::loop_isolation(false)]
    pub fn get_user_info(&self, name: &str) -> (r: Option<&UserInfo>)
        ensures
            match r {
                Some(info) => user_lookup(self.users@, name@) == Some(*info),
                None => user_lookup(self.users@, name@) is None,
            },
    {
        let ghost users = self.users@;
        let mut j: usize = 0;
        while j < self.users.len()
            invariant
                0 <= j <= users.len(),
                forall|i: int| 0 <= i < j ==> #[trigger] users[i].0@ != name@,
            decreases users.len() - j,
        {
            if str_eq(self.users[j].0.as_str(), name) {
                proof {
                    lemma_user_lookup_skip(users, name@, j as int);
                    assert(users.skip(j as int)[0] == users[j as int]);
                }
                return Some(&self.users[j].1);
            }
            j = j + 1;
        }
        proof {
            lemma_user_lookup_skip(users, name@, users.len() as int);
            assert(users.skip(users.len() as int).len() == 0);
        }
        None
    }

    /// Claim the next footnote number (one-based, saturating).
    pub fn next_footnote_index(&mut self) -> (r: u64)
        ensures
            r == final(self).footnote_index,
            final(self).footnote_index as int == if old(self).footnote_index < u64::MAX {
                old(self).footnote_index as int + 1
            } else {
                u64::MAX as int
            },
            final(self).output@ == old(self).output@,
            old(self).output@.is_prefix_of(final(self).output@),
            render_preserved(old(self), final(self)),
            final(self).equation_index == old(self).equation_index,
            final(self).ids.counter == old(self).ids.counter,
    {
        proof {
            lemma_prefix_refl(old(self).output@);
        }
        if self.footnote_index < u64::MAX {
            self.footnote_index = self.footnote_index + 1;
        }
        self.footnote_index
    }

    /// Claim the next equation number (one-based, saturating).
    pub fn next_equation_index(&mut self) -> (r: u64)
        ensures
            r == final(self).equation_index,
            final(self).equation_index as int == if old(self).equation_index < u64::MAX {
                old(self).equation_index as int + 1
            } else {
                u64::MAX as int
            },
            final(self).output@ == old(self).output@,
            old(self).output@.is_prefix_of(final(self).output@),
            render_preserved(old(self), final(self)),
            final(self).footnote_index == old(self).footnote_index,
            final(self).ids.counter == old(self).ids.counter,
    {
        proof {
            lemma_prefix_refl(old(self).output@);
        }
        if self.equation_index < u64::MAX {
            self.equation_index = self.equation_index + 1;
        }
        self.equation_index
    }

    /// The body of the footnote with the given one-based number.
    pub fn get_footnote(&self, index: u64) -> (r: Option<&Vec<Element>>)
        ensures
            match r {
                Some(contents) => 1 <= index <= self.footnotes@.len() && *contents
                    == self.footnotes@[index as int - 1],
                None => index == 0 || index > self.footnotes@.len(),
            },
    {
        if index == 0 {
            return None;
        }
        let slot = index - 1;
        if slot < self.footnotes.len() as u64 {
            Some(&self.footnotes[slot as usize])
        } else {
            None
        }
    }
}

/// How many more footnote references can still claim a body: the measure
/// that bounds footnote recursion.
pub open spec fn footnote_budget(ctx: &HtmlContext) -> int {
    if ctx.footnote_index as int <= ctx.footnotes@.len() {
        ctx.footnotes@.len() - ctx.footnote_index + 1
    } else {
        0int
    }
}

/// The view of an optional string slice.
pub open spec fn opt_view(s: Option<&str>) -> Option<Seq<char>> {
    match s {
        Some(v) => Some(v@),
        None => None,
    }
}

/// The markup of a variable site: the bound value, or the reference
/// written back as it stood.
pub open spec fn variable_markup(scopes: Seq<crate::variables::VariableMap>, name: Seq<char>) -> Seq<char> {
    match crate::variables::scopes_lookup(scopes, name) {
        Some(v) => escape_html(v),
        None => escape_html("{$"@ + name + "}"@),
    }
}

/// Substitute a variable reference by the innermost binding of its name;
/// an unbound reference is written back literally.
pub fn render_variable(ctx: &mut HtmlContext, name: &str)
    ensures
        render_preserved(old(ctx), final(ctx)),
        old(ctx).output@.is_prefix_of(final(ctx).output@),
        final(ctx).output@ == old(ctx).output@ + variable_markup(
            old(ctx).variables.scopes@,
            name@,
        ),
{
    let value: String = match ctx.variables.get(name) {
        Some(v) => v.clone(),
        None => {
            let mut s = String::new();
            s.append("{$");
            s.append(name);
            s.append("}");
            s
        },
    };
    ctx.push_escaped(value.as_str());
}

/// The markup of an equation reference.
pub open spec fn equation_reference_markup(name: Seq<char>) -> Seq<char> {
    "<span class=\"wj-equation-ref\"><wj-equation-ref-marker class=\"wj-equation-ref-marker\" type=\"button\" data-name=\""@
        + escape_html(name) + "\">"@ + escape_html(name) + "</wj-equation-ref-marker></span>"@
}

/// A reference to a numbered equation, by name.
pub fn render_equation_reference(ctx: &mut HtmlContext, name: &str)
    ensures
        render_preserved(old(ctx), final(ctx)),
        old(ctx).output@.is_prefix_of(final(ctx).output@),
        final(ctx).output@ == old(ctx).output@ + equation_reference_markup(name@),
{
    ctx.push_raw(
        "<span class=\"wj-equation-ref\"><wj-equation-ref-marker class=\"wj-equation-ref-marker\" type=\"button\" data-name=\"",
    );
    ctx.push_escaped(name);
    ctx.push_raw("\">");
    ctx.push_escaped(name);
    ctx.push_raw("</wj-equation-ref-marker></span>");
}

/// The opening of a mathematics site: container, name, and number.
pub open spec fn math_open_markup(name: Option<Seq<char>>, index: Option<int>, block: bool) -> Seq<
    char,
> {
    (if block {
        "<div class=\"wj-math wj-math-block\""@
    } else {
        "<span class=\"wj-math wj-math-inline\""@
    }) + (match name {
        Some(n) => " data-name=\""@ + escape_html(n) + "\""@,
        None => Seq::<char>::empty(),
    }) + ">"@ + (match index {
        Some(i) => "<span class=\"wj-equation-number\">("@ + dec_seq(i) + ")</span>"@,
        None => Seq::<char>::empty(),
    })
}

/// The hidden LaTeX source of a mathematics site.
pub open spec fn math_source_markup(source: Seq<char>) -> Seq<char> {
    "<code class=\"wj-math-source wj-hidden\" aria-hidden=\"true\">"@ + escape_html(source)
        + "</code>"@
}

/// What latex2mathml's outcome renders as: the MathML, or the error text.
pub open spec fn math_result_markup(source: Seq<char>, block: bool) -> Seq<char> {
    match latex_render(source, block) {
        Ok(mathml) => "<wj-math-ml class=\"wj-math-ml\">"@ + mathml + "</wj-math-ml>"@,
        Err(error) => (if block {
            "<span class=\"wj-error-block\">"@
        } else {
            "<span class=\"wj-error-inline\">"@
        }) + escape_html(error) + "</span>"@,
    }
}

/// The markup of a mathematics site: the LaTeX source (hidden), then the
/// MathML that latex2mathml produced, or its error text.
pub open spec fn math_markup(
    name: Option<Seq<char>>,
    index: Option<int>,
    source: Seq<char>,
    block: bool,
) -> Seq<char> {
    math_open_markup(name, index, block) + math_source_markup(source) + math_result_markup(
        source,
        block,
    ) + (if block {
        "</div>"@
    } else {
        "</span>"@
    })
}

/// Shared body of the mathematics renderers.
#[verifier::rlimit(100)]
fn render_latex(
    ctx: &mut HtmlContext,
    name: Option<&str>,
    index: Option<u64>,
    latex_source: &str,
    block: bool,
)
    ensures
        render_preserved(old(ctx), final(ctx)),
        old(ctx).output@.is_prefix_of(final(ctx).output@),
        final(ctx).equation_index == old(ctx).equation_index,
        final(ctx).footnote_index == old(ctx).footnote_index,
        final(ctx).output@ == old(ctx).output@ + math_markup(
            opt_view(name),
            match index {
                Some(i) => Some(i as int),
                None => None,
            },
            latex_source@,
            block,
        ),
{
    let ghost entry = *ctx;
    let ghost spec_index: Option<int> = match index {
        Some(i) => Some(i as int),
        None => None,
    };
    if block {
        ctx.push_raw("<div class=\"wj-math wj-math-block\"");
    } else {
        ctx.push_raw("<span class=\"wj-math wj-math-inline\"");
    }
    match name {
        Some(n) => {
            ctx.push_raw(" data-name=\"");
            ctx.push_escaped(n);
            ctx.push_raw("\"");
        },
        None => {},
    }
    ctx.push_raw(">");
    match index {
        Some(i) => {
            ctx.push_raw("<span class=\"wj-equation-number\">(");
            let digits = u64_to_dec(i);
            ctx.push_raw(digits.as_str());
            ctx.push_raw(")</span>");
        },
        None => {},
    }
    proof {
        assert(ctx.output@ =~= entry.output@ + math_open_markup(
            opt_view(name),
            spec_index,
            block,
        ));
    }
    let ghost stage1 = ctx.output@;

    ctx.push_raw("<code class=\"wj-math-source wj-hidden\" aria-hidden=\"true\">");
    ctx.push_escaped(latex_source);
    ctx.push_raw("</code>");
    proof {
        assert(ctx.output@ =~= stage1 + math_source_markup(latex_source@));
    }
    let ghost stage2 = ctx.output@;

    let rendered = crate::outside::render_latex_to_mathml(latex_source, block);
    match rendered {
        Ok(mathml) => {
            ctx.push_raw("<wj-math-ml class=\"wj-math-ml\">");
            ctx.push_raw(mathml.as_str());
            ctx.push_raw("</wj-math-ml>");
        },
        Err(error) => {
            if block {
                ctx.push_raw("<span class=\"wj-error-block\">");
            } else {
                ctx.push_raw("<span class=\"wj-error-inline\">");
            }
            ctx.push_escaped(error.as_str());
            ctx.push_raw("</span>");
        },
    }
    proof {
        assert(ctx.output@ =~= stage2 + math_result_markup(latex_source@, block));
    }
    if block {
        ctx.push_raw("</div>");
    } else {
        ctx.push_raw("</span>");
    }
    proof {
        assert(ctx.output@ =~= entry.output@ + math_markup(
            opt_view(name),
            spec_index,
            latex_source@,
            block,
        ));
        lemma_prefix_append(
            entry.output@,
            math_markup(opt_view(name), spec_index, latex_source@, block),
        );
    }
}

/// A display-style mathematics block: claims the next equation number.
pub fn render_math_block(ctx: &mut HtmlContext, name: Option<&str>, latex_source: &str)
    ensures
        render_preserved(old(ctx), final(ctx)),
        old(ctx).output@.is_prefix_of(final(ctx).output@),
        old(ctx).equation_index < u64::MAX ==> {
            &&& final(ctx).equation_index == old(ctx).equation_index + 1
            &&& final(ctx).output@ == old(ctx).output@ + math_markup(
                opt_view(name),
                Some(old(ctx).equation_index as int + 1),
                latex_source@,
                true,
            )
        },
{
    let index = ctx.next_equation_index();
    render_latex(ctx, name, Some(index), latex_source, true);
}

/// Inline mathematics: unnumbered.
pub fn render_math_inline(ctx: &mut HtmlContext, latex_source: &str)
    ensures
        render_preserved(old(ctx), final(ctx)),
        old(ctx).output@.is_prefix_of(final(ctx).output@),
        final(ctx).equation_index == old(ctx).equation_index,
        final(ctx).footnote_index == old(ctx).footnote_index,
        final(ctx).output@ == old(ctx).output@ + math_markup(None, None, latex_source@, false),
{
    render_latex(ctx, None, None, latex_source, false);
}

/// The markup of an embed site.
pub open spec fn embed_markup(embed: Embed) -> Seq<char> {
    "<div class=\"wj-embed\">"@ + (match embed {
        Embed::Youtube { video_id } => "<iframe src=\"https://www.youtube.com/embed/"@
            + escape_html(video_id@) + "\" frameborder=\"0\" allowfullscreen></iframe>"@,
        Embed::Vimeo { video_id } => "<iframe src=\"https://player.vimeo.com/video/"@
            + escape_html(video_id@) + "\" frameborder=\"0\" allowfullscreen></iframe>"@,
        Embed::GithubGist { username, hash } => "<script src=\"https://gist.github.com/"@
            + escape_html(username@) + "/"@ + escape_html(hash@) + ".js\"></script>"@,
        Embed::GitlabSnippet { snippet_id } => "<script src=\"https://gitlab.com/-/snippets/"@
            + escape_html(snippet_id@) + ".js\"></script>"@,
    }) + "</div>"@
}

/// Embedded external media: an iframe for the service's player.
pub fn render_embed(ctx: &mut HtmlContext, embed: &Embed)
    ensures
        render_preserved(old(ctx), final(ctx)),
        old(ctx).output@.is_prefix_of(final(ctx).output@),
        final(ctx).output@ == old(ctx).output@ + embed_markup(*embed),
{
    ctx.push_raw("<div class=\"wj-embed\">");
    match embed {
        Embed::Youtube { video_id } => {
            ctx.push_raw("<iframe src=\"https://www.youtube.com/embed/");
            ctx.push_escaped(video_id.as_str());
            ctx.push_raw("\" frameborder=\"0\" allowfullscreen></iframe>");
        },
        Embed::Vimeo { video_id } => {
            ctx.push_raw("<iframe src=\"https://player.vimeo.com/video/");
            ctx.push_escaped(video_id.as_str());
            ctx.push_raw("\" frameborder=\"0\" allowfullscreen></iframe>");
        },
        Embed::GithubGist { username, hash } => {
            ctx.push_raw("<script src=\"https://gist.github.com/");
            ctx.push_escaped(username.as_str());
            ctx.push_raw("/");
            ctx.push_escaped(hash.as_str());
            ctx.push_raw(".js\"></script>");
        },
        Embed::GitlabSnippet { snippet_id } => {
            ctx.push_raw("<script src=\"https://gitlab.com/-/snippets/");
            ctx.push_escaped(snippet_id.as_str());
            ctx.push_raw(".js\"></script>");
        },
    }
    ctx.push_raw("</div>");
}

/// The markup of a user site: a profile link when the user service knows
/// the name, an inline error otherwise.
pub open spec fn user_markup(
    info: Option<UserInfo>,
    name: Seq<char>,
    show_avatar: bool,
) -> Seq<char> {
    "<span class=\"wj-user-info\">"@ + (match info {
        Some(user) => "<a class=\"wj-user-info-link\" href=\""@ + escape_html(
            user.user_profile_url@,
        ) + "\">"@ + (if show_avatar {
            "<span class=\"wj-karma\" data-karma=\""@ + dec_seq(user.user_karma as int)
                + "\"></span><img class=\"wj-user-info-avatar\" src=\""@ + escape_html(
                user.user_avatar_data@,
            ) + "\">"@
        } else {
            Seq::<char>::empty()
        }) + "<span class=\"wj-user-info-name\">"@ + escape_html(user.user_name@)
            + "</span></a>"@,
        None => "<span class=\"wj-error-inline\">"@ + (if show_avatar {
            "<span class=\"wj-karma\" data-karma=\"0\"></span>"@
        } else {
            Seq::<char>::empty()
        }) + "<span class=\"wj-user-info-name\">"@ + escape_html(name) + "</span></span>"@,
    }) + "</span>"@
}

/// A user info reference: a profile link when the user service knows the
/// name, an inline error otherwise.
#[verifier::rlimit(60)]
pub fn render_user(ctx: &mut HtmlContext, name: &str, show_avatar: bool)
    ensures
        render_preserved(old(ctx), final(ctx)),
        old(ctx).output@.is_prefix_of(final(ctx).output@),
        final(ctx).output@ == old(ctx).output@ + user_markup(
            user_lookup(old(ctx).users@, name@),
            name@,
            show_avatar,
        ),
{
    let ghost entry_output = ctx.output@;
    ctx.push_raw("<span class=\"wj-user-info\">");
    let info: Option<(String, String, u64, String)> = match ctx.get_user_info(name) {
        Some(info) => Some(
            (
                info.user_name.clone(),
                info.user_profile_url.clone(),
                info.user_karma,
                info.user_avatar_data.clone(),
            ),
        ),
        None => None,
    };
    match info {
        Some((user_name, profile_url, karma, avatar)) => {
            ctx.push_raw("<a class=\"wj-user-info-link\" href=\"");
            ctx.push_escaped(profile_url.as_str());
            ctx.push_raw("\">");
            if show_avatar {
                ctx.push_raw("<span class=\"wj-karma\" data-karma=\"");
                let digits = u64_to_dec(karma);
                ctx.push_raw(digits.as_str());
                ctx.push_raw("\"></span><img class=\"wj-user-info-avatar\" src=\"");
                ctx.push_escaped(avatar.as_str());
                ctx.push_raw("\">");
            }
            ctx.push_raw("<span class=\"wj-user-info-name\">");
            ctx.push_escaped(user_name.as_str());
            ctx.push_raw("</span></a>");
        },
        None => {
            ctx.push_raw("<span class=\"wj-error-inline\">");
            if show_avatar {
                ctx.push_raw("<span class=\"wj-karma\" data-karma=\"0\"></span>");
            }
            ctx.push_raw("<span class=\"wj-user-info-name\">");
            ctx.push_escaped(name);
            ctx.push_raw("</span></span>");
        },
    }
    ctx.push_raw("</span>");
    proof {
        assert(ctx.output@ =~= entry_output + user_markup(
            user_lookup(old(ctx).users@, name@),
            name@,
            show_avatar,
        ));
        lemma_prefix_append(
            entry_output,
            user_markup(user_lookup(old(ctx).users@, name@), name@, show_avatar),
        );
    }
}

/// The opening tag name a container type renders as.
pub open spec fn container_tag(ctype: ContainerType) -> Seq<char> {
    match ctype {
        ContainerType::Paragraph => "p"@,
        ContainerType::Blockquote => "blockquote"@,
        ContainerType::Hidden => "span"@,
        ContainerType::Insertion => "ins"@,
        ContainerType::Bold => "strong"@,
        ContainerType::Italics => "em"@,
        ContainerType::Underline => "u"@,
        ContainerType::Superscript => "sup"@,
        ContainerType::Subscript => "sub"@,
    }
}

/// The tag a container type renders as.
fn container_tag_str(ctype: ContainerType) -> (r: &'static str)
    ensures
        r@ == container_tag(ctype),
{
    match ctype {
        ContainerType::Paragraph => "p",
        ContainerType::Blockquote => "blockquote",
        ContainerType::Hidden => "span",
        ContainerType::Insertion => "ins",
        ContainerType::Bold => "strong",
        ContainerType::Italics => "em",
        ContainerType::Underline => "u",
        ContainerType::Superscript => "sup",
        ContainerType::Subscript => "sub",
    }
}

/// Append ` key="value"` for every attribute, escaped.
fn push_attributes(ctx: &mut HtmlContext, attributes: &AttributeMap)
    ensures
        render_preserved(old(ctx), final(ctx)),
        old(ctx).output@.is_prefix_of(final(ctx).output@),
        final(ctx).footnote_index == old(ctx).footnote_index,
        final(ctx).in_footnote_block == old(ctx).in_footnote_block,
{
    let ghost entry = *ctx;
    let mut i: usize = 0;
    while i < attributes.entries.len()
        invariant
            render_preserved(&entry, ctx),
            entry.output@.is_prefix_of(ctx.output@),
            ctx.footnote_index == entry.footnote_index,
        decreases attributes.entries@.len() - i,
    {
        let ghost mid = *ctx;
        ctx.push_raw(" ");
        ctx.push_escaped(attributes.entries[i].0.as_str());
        ctx.push_raw("=\"");
        ctx.push_escaped(attributes.entries[i].1.as_str());
        ctx.push_raw("\"");
        proof {
            lemma_render_preserved_trans(&entry, &mid, ctx);
            assert(mid.output@.is_prefix_of(ctx.output@)) by {
                assert(mid.output@ =~= ctx.output@.subrange(0, mid.output@.len() as int));
            }
            lemma_prefix_trans(entry.output@, mid.output@, ctx.output@);
        }
        i = i + 1;
    }
    proof {
        assert(entry.output@.is_prefix_of(entry.output@)) by {
            assert(entry.output@ =~= entry.output@.subrange(0, entry.output@.len() as int));
        }
    }
}

pub proof fn lemma_prefix_append(a: Seq<char>, b: Seq<char>)
    ensures
        a.is_prefix_of(a + b),
{
    assert(a =~= (a + b).subrange(0, a.len() as int));
}

pub proof fn lemma_prefix_refl(a: Seq<char>)
    ensures
        a.is_prefix_of(a),
{
    assert(a =~= a.subrange(0, a.len() as int));
}

/// One accumulation step: composing two preserved, extending steps.
pub proof fn lemma_render_step(entry: &HtmlContext, mid: &HtmlContext, cur: &HtmlContext)
    requires
        render_preserved(entry, mid),
        render_preserved(mid, cur),
        entry.output@.is_prefix_of(mid.output@),
        mid.output@.is_prefix_of(cur.output@),
    ensures
        render_preserved(entry, cur),
        entry.output@.is_prefix_of(cur.output@),
{
    lemma_prefix_trans(entry.output@, mid.output@, cur.output@);
}

/// Render every element of a list, in order.
#[verifier::loop_isolation(false)]
pub fn render_elements(ctx: &mut HtmlContext, elements: &[Element])
    ensures
        render_preserved(old(ctx), final(ctx)),
        old(ctx).output@.is_prefix_of(final(ctx).output@),
    decreases block_budget(old(ctx)), footnote_budget(old(ctx)), elements@, 2int,
{
    let ghost entry = *ctx;
    proof {
        lemma_prefix_refl(entry.output@);
    }
    let mut i: usize = 0;
    while i < elements.len()
        invariant
            render_preserved(&entry, ctx),
            entry.output@.is_prefix_of(ctx.output@),
        decreases elements@.len() - i,
    {
        let ghost mid = *ctx;
        proof {
            assert(decreases_to!(elements@ => elements@[i as int]));
        }
        render_element(ctx, &elements[i]);
        proof {
            lemma_render_step(&entry, &mid, ctx);
        }
        i = i + 1;
    }
}

/// Render one element.
#[verifier::loop_isolation(false)]
pub fn render_element(ctx: &mut HtmlContext, element: &Element)
    ensures
        render_preserved(old(ctx), final(ctx)),
        old(ctx).output@.is_prefix_of(final(ctx).output@),
    decreases block_budget(old(ctx)), footnote_budget(old(ctx)), *element, 1int,
{
    let ghost entry = *ctx;
    proof {
        lemma_prefix_refl(entry.output@);
    }
    match element {
        Element::Text(s) => {
            ctx.push_escaped(s.as_str());
        },
        Element::Container(c) => {
            let tag = container_tag_str(c.ctype);
            ctx.push_raw("<");
            let ghost m1 = *ctx;
            ctx.push_raw(tag);
            let ghost m2 = *ctx;
            push_attributes(ctx, &c.attributes);
            let ghost m3 = *ctx;
            ctx.push_raw(">");
            let ghost m4 = *ctx;
            proof {
                lemma_render_step(&entry, &m1, &m2);
                lemma_render_step(&entry, &m2, &m3);
                lemma_render_step(&entry, &m3, &m4);
                assert(decreases_to!(*element => c.elements));
                assert(decreases_to!(c.elements => c.elements@));
            }
            render_elements(ctx, c.elements.as_slice());
            let ghost m5 = *ctx;
            proof {
                lemma_render_step(&entry, &m4, &m5);
            }
            ctx.push_raw("</");
            let ghost m6 = *ctx;
            ctx.push_raw(tag);
            let ghost m7 = *ctx;
            ctx.push_raw(">");
            proof {
                lemma_render_step(&entry, &m5, &m6);
                lemma_render_step(&entry, &m6, &m7);
                lemma_render_step(&entry, &m7, ctx);
            }
        },
        Element::LineBreak => {
            ctx.push_raw("<br>");
        },
        Element::LineBreaks(n) => {
            let count = *n;
            let mut i: u32 = 0;
            while i < count
                invariant
                    render_preserved(&entry, ctx),
                    entry.output@.is_prefix_of(ctx.output@),
                decreases count - i,
            {
                let ghost mid = *ctx;
                ctx.push_raw("<br>");
                proof {
                    lemma_render_step(&entry, &mid, ctx);
                }
                i = i + 1;
            }
        },
        Element::Variable(name) => {
            render_variable(ctx, name.as_str());
        },
        Element::Include { paragraph_safe, location, variables, elements } => {
            proof {
                assert(decreases_to!(*element => *elements));
                assert(decreases_to!(*elements => elements@));
            }
            render_include(ctx, location.as_str(), variables, elements);
        },
        Element::Embed(embed) => {
            render_embed(ctx, embed);
        },
        Element::TabView(tabs) => {
            proof {
                assert(decreases_to!(*element => *tabs));
                assert(decreases_to!(*tabs => tabs@));
            }
            render_tabview(ctx, tabs.as_slice());
        },
        Element::Partial(_) => {
            // A fragment that leaked past its parent context is a parse
            // defect; it renders as nothing.
        },
        Element::RadioButton { name, attributes } => {
            ctx.push_raw("<input type=\"radio\" name=\"");
            let ghost m1 = *ctx;
            ctx.push_escaped(name.as_str());
            let ghost m2 = *ctx;
            ctx.push_raw("\"");
            let ghost m3 = *ctx;
            proof {
                lemma_render_step(&entry, &m1, &m2);
                lemma_render_step(&entry, &m2, &m3);
            }
            push_attributes(ctx, attributes);
            let ghost m4 = *ctx;
            ctx.push_raw(">");
            proof {
                lemma_render_step(&entry, &m3, &m4);
                lemma_render_step(&entry, &m4, ctx);
            }
        },
        Element::Code { contents, language } => {
            ctx.push_raw("<pre><code");
            let ghost m1 = *ctx;
            match language {
                Some(lang) => {
                    ctx.push_raw(" data-language=\"");
                    let ghost m2 = *ctx;
                    ctx.push_escaped(lang.as_str());
                    let ghost m3 = *ctx;
                    ctx.push_raw("\"");
                    proof {
                        lemma_render_step(&entry, &m1, &m2);
                        lemma_render_step(&entry, &m2, &m3);
                        lemma_render_step(&entry, &m3, ctx);
                    }
                },
                None => {},
            }
            let ghost m4 = *ctx;
            ctx.push_raw(">");
            let ghost m5 = *ctx;
            ctx.push_escaped(contents.as_str());
            let ghost m6 = *ctx;
            ctx.push_raw("</code></pre>");
            proof {
                lemma_render_step(&entry, &m4, &m5);
                lemma_render_step(&entry, &m5, &m6);
                lemma_render_step(&entry, &m6, ctx);
            }
        },
        Element::MathBlock { name, latex_source } => {
            let name_ref = match name {
                Some(n) => Some(n.as_str()),
                None => None,
            };
            render_math_block(ctx, name_ref, latex_source.as_str());
        },
        Element::MathInline { latex_source } => {
            render_math_inline(ctx, latex_source.as_str());
        },
        Element::EquationReference(name) => {
            render_equation_reference(ctx, name.as_str());
        },
        Element::Footnote => {
            proof {
                assert(*element == Element::Footnote);
            }
            render_footnote(ctx);
        },
        Element::FootnoteBlock { title } => {
            if !ctx.in_footnote_block && !ctx.rendering_footnote_contents {
                let title_ref = match title {
                    Some(t) => Some(t.as_str()),
                    None => None,
                };
                ctx.in_footnote_block = true;
                let ghost m1 = *ctx;
                footnote_block_body(ctx, title_ref);
                ctx.in_footnote_block = false;
                proof {
                    assert(render_preserved(&entry, ctx));
                    assert(entry.output@.is_prefix_of(ctx.output@)) by {
                        assert(entry.output@ == m1.output@);
                    }
                }
            }
        },
        Element::User { name, show_avatar } => {
            render_user(ctx, name.as_str(), *show_avatar);
        },
        Element::DefinitionList(items) => {
            proof {
                assert(decreases_to!(*element => *items));
                assert(decreases_to!(*items => items@));
            }
            render_definition_list(ctx, items.as_slice());
        },
        Element::List { ltype, items, attributes } => {
            proof {
                assert(decreases_to!(*element => *items));
                assert(decreases_to!(*items => items@));
            }
            render_list(ctx, *ltype, items.as_slice(), attributes);
        },
    }
}

/// An include site: its variables are bound for the extent of its
/// elements and unbound afterwards.
#[verifier::loop_isolation(false)]
pub fn render_include(
    ctx: &mut HtmlContext,
    location: &str,
    variables: &crate::variables::VariableMap,
    elements: &Vec<Element>,
)
    ensures
        render_preserved(old(ctx), final(ctx)),
        old(ctx).output@.is_prefix_of(final(ctx).output@),
    decreases block_budget(old(ctx)), footnote_budget(old(ctx)), elements@, 4int,
{
    let ghost entry = *ctx;
    proof {
        lemma_prefix_refl(entry.output@);
    }
    ctx.variables.push_scope(variables);
    let ghost mid = *ctx;
    render_elements(ctx, elements.as_slice());
    ctx.variables.pop_scope();
    proof {
        assert(ctx.variables.scopes@ =~= entry.variables.scopes@);
        assert(entry.output@.is_prefix_of(ctx.output@));
    }
}

/// A footnote reference: claims the next footnote number and renders its
/// marker plus a tooltip holding the footnote's body.
#[verifier::loop_isolation(false)]
pub fn render_footnote(ctx: &mut HtmlContext)
    ensures
        render_preserved(old(ctx), final(ctx)),
        old(ctx).output@.is_prefix_of(final(ctx).output@),
    decreases block_budget(old(ctx)), footnote_budget(old(ctx)), Element::Footnote, 0int,
{
    let ghost entry = *ctx;
    proof {
        lemma_prefix_refl(entry.output@);
    }
    let index = ctx.next_footnote_index();
    let digits = u64_to_dec(index);
    let label_head = ctx.get_message("footnote");

    let contents: Option<Vec<Element>> = if index < u64::MAX {
        match ctx.get_footnote(index) {
            Some(body) => Some(clone_elements(body)),
            None => None,
        }
    } else {
        None
    };
    proof {
        if contents is Some {
            assert(footnote_budget(ctx) < footnote_budget(&entry));
        }
    }

    let ghost m0 = *ctx;
    ctx.push_raw("<span class=\"wj-footnote-ref\"><wj-footnote-ref-marker class=\"wj-footnote-ref-marker\" role=\"link\" aria-label=\"");
    let ghost m1 = *ctx;
    ctx.push_escaped(label_head.as_str());
    let ghost m2 = *ctx;
    ctx.push_raw(" ");
    let ghost m3 = *ctx;
    ctx.push_raw(digits.as_str());
    let ghost m4 = *ctx;
    ctx.push_raw(".\" data-id=\"");
    let ghost m5 = *ctx;
    ctx.push_raw(digits.as_str());
    let ghost m6 = *ctx;
    ctx.push_raw("\">");
    let ghost m7 = *ctx;
    ctx.push_raw(digits.as_str());
    let ghost m8 = *ctx;
    ctx.push_raw("</wj-footnote-ref-marker>");
    let ghost m9 = *ctx;
    proof {
        lemma_render_step(&entry, &m0, &m1);
        lemma_render_step(&entry, &m1, &m2);
        lemma_render_step(&entry, &m2, &m3);
        lemma_render_step(&entry, &m3, &m4);
        lemma_render_step(&entry, &m4, &m5);
        lemma_render_step(&entry, &m5, &m6);
        lemma_render_step(&entry, &m6, &m7);
        lemma_render_step(&entry, &m7, &m8);
        lemma_render_step(&entry, &m8, &m9);
    }
    match contents {
        Some(body) => {
            ctx.push_raw("<span class=\"wj-footnote-ref-tooltip\" aria-hidden=\"true\">");
            let ghost m10 = *ctx;
            proof {
                lemma_render_step(&entry, &m9, &m10);
            }
            render_elements(ctx, body.as_slice());
            let ghost m11 = *ctx;
            ctx.push_raw("</span>");
            proof {
                lemma_render_step(&entry, &m10, &m11);
                lemma_render_step(&entry, &m11, ctx);
            }
        },
        None => {},
    }
    let ghost m12 = *ctx;
    ctx.push_raw("</span>");
    proof {
        lemma_render_step(&entry, &m12, ctx);
    }
}

/// The footnote block: lists every gathered footnote. A block nested
/// inside one (or inside a footnote body) renders nothing.
#[verifier::loop_isolation(false)]
pub fn render_footnote_block(ctx: &mut HtmlContext, title: Option<&str>)
    ensures
        render_preserved(old(ctx), final(ctx)),
        old(ctx).output@.is_prefix_of(final(ctx).output@),
    decreases block_budget(old(ctx)), footnote_budget(old(ctx)), Seq::<Element>::empty(), 0int,
{
    let ghost entry = *ctx;
    proof {
        lemma_prefix_refl(entry.output@);
    }
    if ctx.in_footnote_block || ctx.rendering_footnote_contents {
        return ;
    }
    ctx.in_footnote_block = true;
    let ghost m1 = *ctx;
    footnote_block_body(ctx, title);
    ctx.in_footnote_block = false;
    proof {
        assert(entry.output@.is_prefix_of(ctx.output@)) by {
            assert(entry.output@ == m1.output@);
        }
    }
}

/// The body of the footnote block. Footnote bodies are rendered with the
/// contents flag set, so no nested block can open.
#[verifier::loop_isolation(false)]
fn footnote_block_body(ctx: &mut HtmlContext, title: Option<&str>)
    requires
        old(ctx).in_footnote_block,
        !old(ctx).rendering_footnote_contents,
    ensures
        render_preserved(old(ctx), final(ctx)),
        old(ctx).output@.is_prefix_of(final(ctx).output@),
    decreases block_budget(old(ctx)), footnote_budget(old(ctx)), Seq::<Element>::empty(), 0int,
{
    let ghost entry = *ctx;
    proof {
        lemma_prefix_refl(entry.output@);
    }
    let title_owned: String = match title {
        Some(t) => {
            let mut s = String::new();
            s.append(t);
            s
        },
        None => ctx.get_message("footnote-block-title"),
    };

    let ghost m0 = *ctx;
    ctx.push_raw("<div class=\"wj-footnote-list\"><div class=\"wj-title\">");
    let ghost m1 = *ctx;
    ctx.push_escaped(title_owned.as_str());
    let ghost m2 = *ctx;
    ctx.push_raw("</div><ol>");
    let ghost m3 = *ctx;
    proof {
        lemma_render_step(&entry, &m0, &m1);
        lemma_render_step(&entry, &m1, &m2);
        lemma_render_step(&entry, &m2, &m3);
    }

    let total = ctx.footnotes.len();
    let mut i: usize = 0;
    while i < total
        invariant
            render_preserved(&entry, ctx),
            entry.output@.is_prefix_of(ctx.output@),
            total == ctx.footnotes@.len(),
        decreases total - i,
    {
        let body = clone_elements(&ctx.footnotes[i]);
        let number = u64_to_dec((i as u64) + 1);
        let ghost n0 = *ctx;
        proof {
            lemma_prefix_refl(n0.output@);
        }
        ctx.push_raw("<li class=\"wj-footnote-list-item\" data-id=\"");
        let ghost n1 = *ctx;
        ctx.push_raw(number.as_str());
        let ghost n2 = *ctx;
        ctx.push_raw("\">");
        let ghost n3 = *ctx;
        proof {
            lemma_render_step(&n0, &n1, &n2);
            lemma_render_step(&n0, &n2, &n3);
        }
        ctx.rendering_footnote_contents = true;
        let ghost n3b = *ctx;
        render_elements(ctx, body.as_slice());
        let ghost n4 = *ctx;
        ctx.rendering_footnote_contents = false;
        let ghost n4b = *ctx;
        ctx.push_raw("</li>");
        proof {
            assert(n3.output@.is_prefix_of(n4b.output@)) by {
                assert(n3.output@ == n3b.output@);
                assert(n4b.output@ == n4.output@);
            }
            assert(n4b.output@.is_prefix_of(ctx.output@));
            lemma_prefix_trans(n3.output@, n4b.output@, ctx.output@);
            lemma_prefix_trans(n0.output@, n3.output@, ctx.output@);
            lemma_prefix_trans(entry.output@, n0.output@, ctx.output@);
        }
        i = i + 1;
    }

    let ghost m4 = *ctx;
    ctx.push_raw("</ol></div>");
    proof {
        lemma_render_step(&entry, &m4, ctx);
    }
}


/// A tab view: a button strip, then one panel per tab; only the first is
/// initially shown.
#[verifier::loop_isolation(false)]
pub fn render_tabview(ctx: &mut HtmlContext, tabs: &[Tab])
    ensures
        render_preserved(old(ctx), final(ctx)),
        old(ctx).output@.is_prefix_of(final(ctx).output@),
    decreases block_budget(old(ctx)), footnote_budget(old(ctx)), tabs@, 4int,
{
    let ghost entry = *ctx;
    proof {
        lemma_prefix_refl(entry.output@);
    }
    let button_ids = generate_ids(&mut ctx.ids, tabs.len());
    let tab_ids = generate_ids(&mut ctx.ids, tabs.len());

    ctx.push_raw("<wj-tabs class=\"wj-tabs\"><div class=\"wj-tabs-button-list\" role=\"tablist\">");
    let mut i: usize = 0;
    while i < tabs.len()
        invariant
            render_preserved(&entry, ctx),
            entry.output@.is_prefix_of(ctx.output@),
            button_ids@.len() == tabs@.len(),
            tab_ids@.len() == tabs@.len(),
        decreases tabs@.len() - i,
    {
        let ghost n0 = *ctx;
        ctx.push_raw("<wj-tabs-button class=\"wj-tabs-button\" id=\"");
        let ghost n1 = *ctx;
        ctx.push_escaped(button_ids[i].as_str());
        let ghost n2 = *ctx;
        ctx.push_raw("\" role=\"tab\" aria-label=\"");
        let ghost n3 = *ctx;
        ctx.push_escaped(tabs[i].label.as_str());
        let ghost n4 = *ctx;
        ctx.push_raw("\" aria-selected=\"");
        let ghost n5 = *ctx;
        ctx.push_raw(if i == 0 { "true" } else { "false" });
        let ghost n6 = *ctx;
        ctx.push_raw("\" aria-controls=\"");
        let ghost n7 = *ctx;
        ctx.push_escaped(tab_ids[i].as_str());
        let ghost n8 = *ctx;
        ctx.push_raw("\">");
        let ghost n9 = *ctx;
        ctx.push_escaped(tabs[i].label.as_str());
        let ghost n10 = *ctx;
        ctx.push_raw("</wj-tabs-button>");
        proof {
            lemma_render_step(&entry, &n0, &n1);
            lemma_render_step(&entry, &n1, &n2);
            lemma_render_step(&entry, &n2, &n3);
            lemma_render_step(&entry, &n3, &n4);
            lemma_render_step(&entry, &n4, &n5);
            lemma_render_step(&entry, &n5, &n6);
            lemma_render_step(&entry, &n6, &n7);
            lemma_render_step(&entry, &n7, &n8);
            lemma_render_step(&entry, &n8, &n9);
            lemma_render_step(&entry, &n9, &n10);
            lemma_render_step(&entry, &n10, ctx);
        }
        i = i + 1;
    }
    let ghost m0 = *ctx;
    ctx.push_raw("</div><div class=\"wj-tabs-panel-list\">");
    proof {
        lemma_render_step(&entry, &m0, ctx);
    }

    let mut j: usize = 0;
    while j < tabs.len()
        invariant
            render_preserved(&entry, ctx),
            entry.output@.is_prefix_of(ctx.output@),
            tab_ids@.len() == tabs@.len(),
            button_ids@.len() == tabs@.len(),
        decreases tabs@.len() - j,
    {
        let ghost n0 = *ctx;
        ctx.push_raw("<div class=\"wj-tabs-panel\" id=\"");
        let ghost n1 = *ctx;
        ctx.push_escaped(tab_ids[j].as_str());
        let ghost n2 = *ctx;
        ctx.push_raw("\" role=\"tabpanel\" aria-labelledby=\"");
        let ghost n3 = *ctx;
        ctx.push_escaped(button_ids[j].as_str());
        let ghost n4 = *ctx;
        ctx.push_raw(if j == 0 { "\">" } else { "\" hidden>" });
        let ghost n5 = *ctx;
        proof {
            lemma_render_step(&entry, &n0, &n1);
            lemma_render_step(&entry, &n1, &n2);
            lemma_render_step(&entry, &n2, &n3);
            lemma_render_step(&entry, &n3, &n4);
            lemma_render_step(&entry, &n4, &n5);
            assert(decreases_to!(tabs@ => tabs@[j as int]));
        }
        render_elements(ctx, tabs[j].elements.as_slice());
        let ghost n6 = *ctx;
        ctx.push_raw("</div>");
        proof {
            lemma_render_step(&entry, &n5, &n6);
            lemma_render_step(&entry, &n6, ctx);
        }
        j = j + 1;
    }
    let ghost m1 = *ctx;
    ctx.push_raw("</div></wj-tabs>");
    proof {
        lemma_render_step(&entry, &m1, ctx);
    }
}

/// A definition list: one term/definition pair per item.
#[verifier::loop_isolation(false)]
pub fn render_definition_list(ctx: &mut HtmlContext, items: &[DefinitionListItem])
    ensures
        render_preserved(old(ctx), final(ctx)),
        old(ctx).output@.is_prefix_of(final(ctx).output@),
    decreases block_budget(old(ctx)), footnote_budget(old(ctx)), items@, 4int,
{
    let ghost entry = *ctx;
    proof {
        lemma_prefix_refl(entry.output@);
    }
    ctx.push_raw("<dl>");
    let mut i: usize = 0;
    while i < items.len()
        invariant
            render_preserved(&entry, ctx),
            entry.output@.is_prefix_of(ctx.output@),
        decreases items@.len() - i,
    {
        let ghost n0 = *ctx;
        ctx.push_raw("<dt>");
        let ghost n1 = *ctx;
        proof {
            lemma_render_step(&entry, &n0, &n1);
            assert(decreases_to!(items@ => items@[i as int]));
        }
        render_elements(ctx, items[i].key_elements.as_slice());
        let ghost n2 = *ctx;
        ctx.push_raw("</dt><dd>");
        let ghost n3 = *ctx;
        proof {
            lemma_render_step(&entry, &n1, &n2);
            lemma_render_step(&entry, &n2, &n3);
        }
        render_elements(ctx, items[i].value_elements.as_slice());
        let ghost n4 = *ctx;
        ctx.push_raw("</dd>");
        proof {
            lemma_render_step(&entry, &n3, &n4);
            lemma_render_step(&entry, &n4, ctx);
        }
        i = i + 1;
    }
    let ghost m0 = *ctx;
    ctx.push_raw("</dl>");
    proof {
        lemma_render_step(&entry, &m0, ctx);
    }
}

/// A bulleted or numbered list.
#[verifier::loop_isolation(false)]
pub fn render_list(
    ctx: &mut HtmlContext,
    ltype: ListType,
    list_items: &[ListItem],
    attributes: &AttributeMap,
)
    ensures
        render_preserved(old(ctx), final(ctx)),
        old(ctx).output@.is_prefix_of(final(ctx).output@),
    decreases block_budget(old(ctx)), footnote_budget(old(ctx)), list_items@, 4int,
{
    let ghost entry = *ctx;
    proof {
        lemma_prefix_refl(entry.output@);
    }
    let tag = match ltype {
        ListType::Bullet => "ul",
        ListType::Numbered => "ol",
    };
    ctx.push_raw("<");
    let ghost m0 = *ctx;
    ctx.push_raw(tag);
    let ghost m1 = *ctx;
    proof {
        lemma_render_step(&entry, &m0, &m1);
    }
    push_attributes(ctx, attributes);
    let ghost m2 = *ctx;
    ctx.push_raw(">");
    let ghost m3 = *ctx;
    proof {
        lemma_render_step(&entry, &m1, &m2);
        lemma_render_step(&entry, &m2, &m3);
    }

    let mut i: usize = 0;
    while i < list_items.len()
        invariant
            render_preserved(&entry, ctx),
            entry.output@.is_prefix_of(ctx.output@),
        decreases list_items@.len() - i,
    {
        let ghost n0 = *ctx;
        proof {
            assert(decreases_to!(list_items@ => list_items@[i as int]));
        }
        match &list_items[i] {
            ListItem::Elements { elements, attributes } => {
                ctx.push_raw("<li");
                let ghost n1 = *ctx;
                proof {
                    lemma_prefix_refl(n0.output@);
                    lemma_render_step(&n0, &n0, &n1);
                }
                push_attributes(ctx, attributes);
                let ghost n2 = *ctx;
                ctx.push_raw(">");
                let ghost n3 = *ctx;
                proof {
                    lemma_render_step(&n0, &n1, &n2);
                    lemma_render_step(&n0, &n2, &n3);
                }
                render_elements(ctx, elements.as_slice());
                let ghost n4 = *ctx;
                ctx.push_raw("</li>");
                proof {
                    lemma_render_step(&n0, &n3, &n4);
                    lemma_render_step(&n0, &n4, ctx);
                    lemma_render_step(&entry, &n0, ctx);
                }
            },
            ListItem::SubList { element } => {
                render_element(ctx, element);
                proof {
                    lemma_render_step(&entry, &n0, ctx);
                }
            },
        }
        i = i + 1;
    }
    let ghost m4 = *ctx;
    ctx.push_raw("</");
    let ghost m5 = *ctx;
    ctx.push_raw(tag);
    let ghost m6 = *ctx;
    ctx.push_raw(">");
    proof {
        lemma_render_step(&entry, &m4, &m5);
        lemma_render_step(&entry, &m5, &m6);
        lemma_render_step(&entry, &m6, ctx);
    }
}

/// A collapsible section, prepared for rendering.
#[derive(Debug)]
pub struct Collapsible<'a> {
    pub elements: &'a [Element],
    pub attributes: &'a AttributeMap,
    pub start_open: bool,
    pub show_text: Option<&'a str>,
    pub hide_text: Option<&'a str>,
    pub show_top: bool,
    pub show_bottom: bool,
}

impl<'a> Collapsible<'a> {
    /// Bundle the fields of a collapsible section.
    pub fn new(
        elements: &'a [Element],
        attributes: &'a AttributeMap,
        start_open: bool,
        show_text: Option<&'a str>,
        hide_text: Option<&'a str>,
        show_top: bool,
        show_bottom: bool,
    ) -> (r: Collapsible<'a>)
        ensures
            r.elements@ == elements@,
            r.attributes == attributes,
            r.start_open == start_open,
            opt_view(r.show_text) == opt_view(show_text),
            opt_view(r.hide_text) == opt_view(hide_text),
            r.show_top == show_top,
            r.show_bottom == show_bottom,
    {
        Collapsible { elements, attributes, start_open, show_text, hide_text, show_top, show_bottom }
    }
}

/// A collapsible section: a fold/unfold button, the content, and an
/// optional bottom button. The open/hide texts default to the localized
/// messages.
#[verifier::loop_isolation(false)]
pub fn render_collapsible(ctx: &mut HtmlContext, collapsible: Collapsible<'_>)
    ensures
        render_preserved(old(ctx), final(ctx)),
        old(ctx).output@.is_prefix_of(final(ctx).output@),
    decreases block_budget(old(ctx)), footnote_budget(old(ctx)), collapsible.elements@, 4int,
{
    let ghost entry = *ctx;
    proof {
        lemma_prefix_refl(entry.output@);
    }
    let Collapsible { elements, attributes, start_open, show_text, hide_text, show_top, show_bottom } =
        collapsible;

    let show_text_owned: String = match show_text {
        Some(t) => {
            let mut s = String::new();
            s.append(t);
            s
        },
        None => ctx.get_message("collapsible-open"),
    };
    let hide_text_owned: String = match hide_text {
        Some(t) => {
            let mut s = String::new();
            s.append(t);
            s
        },
        None => ctx.get_message("collapsible-hide"),
    };

    ctx.push_raw("<details class=\"wj-collapsible\"");
    let ghost m0 = *ctx;
    if start_open {
        ctx.push_raw(" open");
    }
    let ghost m1 = *ctx;
    if show_top {
        ctx.push_raw(" data-show-top");
    }
    let ghost m2 = *ctx;
    if show_bottom {
        ctx.push_raw(" data-show-bottom");
    }
    let ghost m3 = *ctx;
    proof {
        lemma_prefix_refl(m0.output@);
        lemma_prefix_refl(m1.output@);
        lemma_prefix_refl(m2.output@);
        lemma_render_step(&entry, &m0, &m1);
        lemma_render_step(&entry, &m1, &m2);
        lemma_render_step(&entry, &m2, &m3);
    }
    push_attributes(ctx, attributes);
    let ghost m4 = *ctx;
    ctx.push_raw(
        "><summary class=\"wj-collapsible-button wj-collapsible-button-top\"><span class=\"wj-collapsible-show-text\">",
    );
    let ghost m5 = *ctx;
    ctx.push_escaped(show_text_owned.as_str());
    let ghost m6 = *ctx;
    ctx.push_raw("</span><span class=\"wj-collapsible-hide-text\">");
    let ghost m7 = *ctx;
    ctx.push_escaped(hide_text_owned.as_str());
    let ghost m8 = *ctx;
    ctx.push_raw("</span></summary><div class=\"wj-collapsible-content\">");
    let ghost m9 = *ctx;
    proof {
        lemma_render_step(&entry, &m3, &m4);
        lemma_render_step(&entry, &m4, &m5);
        lemma_render_step(&entry, &m5, &m6);
        lemma_render_step(&entry, &m6, &m7);
        lemma_render_step(&entry, &m7, &m8);
        lemma_render_step(&entry, &m8, &m9);
    }
    render_elements(ctx, elements);
    let ghost m10 = *ctx;
    ctx.push_raw("</div>");
    let ghost m11 = *ctx;
    proof {
        lemma_render_step(&entry, &m9, &m10);
        lemma_render_step(&entry, &m10, &m11);
    }
    if show_bottom {
        let ghost n0 = *ctx;
        ctx.push_raw(
            "<wj-collapsible-button-bottom class=\"wj-collapsible-button wj-collapsible-button-bottom\"><span class=\"wj-collapsible-hide-text\">",
        );
        let ghost n1 = *ctx;
        ctx.push_escaped(hide_text_owned.as_str());
        let ghost n2 = *ctx;
        ctx.push_raw("</span></wj-collapsible-button-bottom>");
        proof {
            lemma_render_step(&entry, &n0, &n1);
            lemma_render_step(&entry, &n1, &n2);
            lemma_render_step(&entry, &n2, ctx);
        }
    }
    let ghost m12 = *ctx;
    ctx.push_raw("</details>");
    proof {
        lemma_render_step(&entry, &m12, ctx);
    }
}


} // verus!

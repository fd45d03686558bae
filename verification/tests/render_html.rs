//! Tests for the HTML rendering layer.

use ftml::element::{AttributeMap, Container, ContainerType, Element, Embed, ListItem, ListType, Tab};
use ftml::render::{
    generate_ids, render_collapsible, render_definition_list, render_element, render_elements,
    render_embed, render_equation_reference, render_footnote, render_footnote_block,
    render_include, render_list, render_math_block, render_math_inline, render_tabview,
    render_user, render_variable, Collapsible, HtmlContext, IdGenerator, UserInfo,
};

fn ctx() -> HtmlContext {
    HtmlContext::new(Vec::new(), "en".to_string(), Vec::new(), Vec::new())
}

fn text(s: &str) -> Element {
    Element::Text(s.to_string())
}

#[test]
fn text_is_escaped() {
    let mut ctx = ctx();
    render_element(&mut ctx, &text("a<b>&\"c\""));
    assert_eq!(ctx.output, "a&lt;b&gt;&amp;&quot;c&quot;");
}

#[test]
fn container_renders_tag_and_children() {
    let mut ctx = ctx();
    let element = Element::Container(Container::new(
        ContainerType::Bold,
        vec![text("x")],
        AttributeMap::from_entries(vec![("class".to_string(), "wide".to_string())]),
    ));
    render_element(&mut ctx, &element);
    assert_eq!(ctx.output, "<strong class=\"wide\">x</strong>");
}

#[test]
fn line_breaks_render_repeatedly() {
    let mut ctx = ctx();
    render_element(&mut ctx, &Element::LineBreaks(3));
    assert_eq!(ctx.output, "<br><br><br>");
}

#[test]
fn variable_renders_bound_value() {
    let mut ctx = ctx();
    ctx.variables.push_scope(&vec![("name".to_string(), "val<ue".to_string())]);
    render_variable(&mut ctx, "name");
    assert_eq!(ctx.output, "val&lt;ue");
}

#[test]
fn variable_unbound_writes_reference_back() {
    let mut ctx = ctx();
    render_variable(&mut ctx, "missing");
    assert_eq!(ctx.output, "{$missing}");
}

#[test]
fn include_binds_variables_for_its_elements() {
    let mut ctx = ctx();
    render_include(
        &mut ctx,
        "other-page",
        &vec![("who".to_string(), "world".to_string())],
        &vec![Element::Variable("who".to_string())],
    );
    assert_eq!(ctx.output, "world");
    // The scope was popped afterwards.
    assert!(ctx.variables.get("who").is_none());
}

#[test]
fn embed_renders_iframe() {
    let mut ctx = ctx();
    render_embed(
        &mut ctx,
        &Embed::Youtube {
            video_id: "abc".to_string(),
        },
    );
    assert_eq!(
        ctx.output,
        "<div class=\"wj-embed\"><iframe src=\"https://www.youtube.com/embed/abc\" frameborder=\"0\" allowfullscreen></iframe></div>",
    );
    let mut ctx2 = ctx2_helper();
    render_embed(
        &mut ctx2,
        &Embed::Vimeo {
            video_id: "55".to_string(),
        },
    );
    assert!(ctx2.output.contains("player.vimeo.com/video/55"));
    let mut ctx3 = ctx2_helper();
    render_embed(
        &mut ctx3,
        &Embed::GithubGist {
            username: "user".to_string(),
            hash: "abc".to_string(),
        },
    );
    assert!(ctx3.output.contains("gist.github.com/user/abc.js"));
    let mut ctx4 = ctx2_helper();
    render_embed(
        &mut ctx4,
        &Embed::GitlabSnippet {
            snippet_id: "99".to_string(),
        },
    );
    assert!(ctx4.output.contains("gitlab.com/-/snippets/99.js"));
}

fn ctx2_helper() -> HtmlContext {
    HtmlContext::new(Vec::new(), "en".to_string(), Vec::new(), Vec::new())
}

#[test]
fn math_inline_renders_mathml() {
    let mut ctx = ctx();
    render_math_inline(&mut ctx, "x + 1");
    // The hidden source is present, and latex2mathml produced real MathML.
    assert!(ctx.output.contains("wj-math-source"));
    assert!(ctx.output.contains("<math"), "output: {}", ctx.output);
    assert!(ctx.output.contains("</math>"));
}

#[test]
fn math_block_numbers_equations() {
    let mut ctx = ctx();
    render_math_block(&mut ctx, Some("eq1"), "y = x^2");
    assert_eq!(ctx.equation_index, 1);
    assert!(ctx.output.contains("wj-equation-number"));
    assert!(ctx.output.contains("(1)"));
    assert!(ctx.output.contains("data-name=\"eq1\""));
    render_math_block(&mut ctx, None, "z = 2");
    assert_eq!(ctx.equation_index, 2);
    assert!(ctx.output.contains("(2)"));
}

#[test]
fn equation_reference_renders_marker() {
    let mut ctx = ctx();
    render_equation_reference(&mut ctx, "eq1");
    assert_eq!(
        ctx.output,
        "<span class=\"wj-equation-ref\"><wj-equation-ref-marker class=\"wj-equation-ref-marker\" type=\"button\" data-name=\"eq1\">eq1</wj-equation-ref-marker></span>",
    );
}

#[test]
fn footnote_renders_marker_and_contents() {
    let mut ctx = HtmlContext::new(
        vec![vec![text("the note")]],
        "en".to_string(),
        vec![("footnote".to_string(), "Footnote".to_string())],
        Vec::new(),
    );
    render_footnote(&mut ctx);
    assert_eq!(ctx.footnote_index, 1);
    assert!(ctx.output.contains("wj-footnote-ref-marker"));
    assert!(ctx.output.contains("aria-label=\"Footnote 1.\""));
    assert!(ctx.output.contains("the note"));
}

#[test]
fn footnote_without_body_renders_marker_only() {
    let mut ctx = ctx();
    render_footnote(&mut ctx);
    assert!(ctx.output.contains("wj-footnote-ref-marker"));
    assert!(!ctx.output.contains("wj-footnote-ref-tooltip"));
}

#[test]
fn footnote_block_lists_all_footnotes() {
    let mut ctx = HtmlContext::new(
        vec![vec![text("first")], vec![text("second")]],
        "en".to_string(),
        Vec::new(),
        Vec::new(),
    );
    render_footnote_block(&mut ctx, Some("Notes"));
    assert!(ctx.output.contains("wj-footnote-list"));
    assert!(ctx.output.contains("Notes"));
    assert!(ctx.output.contains("first"));
    assert!(ctx.output.contains("second"));
    assert!(ctx.output.contains("data-id=\"2\""));
    assert!(!ctx.in_footnote_block);
}

#[test]
fn footnote_block_title_defaults_to_message() {
    let mut ctx = HtmlContext::new(
        Vec::new(),
        "en".to_string(),
        vec![("footnote-block-title".to_string(), "All notes".to_string())],
        Vec::new(),
    );
    render_footnote_block(&mut ctx, None);
    assert!(ctx.output.contains("All notes"));
}

#[test]
fn user_renders_profile_link() {
    let mut ctx = HtmlContext::new(
        Vec::new(),
        "en".to_string(),
        Vec::new(),
        vec![(
            "alice".to_string(),
            UserInfo {
                user_id: 7,
                user_name: "Alice".to_string(),
                user_profile_url: "https://example.com/alice".to_string(),
                user_karma: 3,
                user_avatar_data: "/avatars/alice.png".to_string(),
            },
        )],
    );
    render_user(&mut ctx, "alice", true);
    assert!(ctx.output.contains("href=\"https://example.com/alice\""));
    assert!(ctx.output.contains("data-karma=\"3\""));
    assert!(ctx.output.contains("Alice"));
}

#[test]
fn user_unknown_renders_error_span() {
    let mut ctx = ctx();
    render_user(&mut ctx, "nobody", false);
    assert!(ctx.output.contains("wj-error-inline"));
    assert!(ctx.output.contains("nobody"));
}

#[test]
fn tabview_renders_buttons_and_panels() {
    let mut ctx = ctx();
    render_tabview(
        &mut ctx,
        &[
            Tab {
                label: "One".to_string(),
                elements: vec![text("first tab")],
            },
            Tab {
                label: "Two".to_string(),
                elements: vec![text("second tab")],
            },
        ],
    );
    assert!(ctx.output.contains("aria-label=\"One\""));
    assert!(ctx.output.contains("aria-label=\"Two\""));
    assert!(ctx.output.contains("first tab"));
    assert!(ctx.output.contains("hidden>second tab"));
    assert!(ctx.output.contains("wj-id-0"));
}

#[test]
fn definition_list_renders_terms() {
    let mut ctx = ctx();
    render_definition_list(
        &mut ctx,
        &[ftml::element::DefinitionListItem {
            key_elements: vec![text("term")],
            value_elements: vec![text("meaning")],
        }],
    );
    assert_eq!(ctx.output, "<dl><dt>term</dt><dd>meaning</dd></dl>");
}

#[test]
fn list_renders_items_and_sublists() {
    let mut ctx = ctx();
    render_list(
        &mut ctx,
        ListType::Bullet,
        &[
            ListItem::Elements {
                elements: vec![text("a")],
                attributes: AttributeMap::new(),
            },
            ListItem::SubList {
                element: Box::new(Element::List {
                    ltype: ListType::Numbered,
                    items: vec![ListItem::Elements {
                        elements: vec![text("b")],
                        attributes: AttributeMap::new(),
                    }],
                    attributes: AttributeMap::new(),
                }),
            },
        ],
        &AttributeMap::new(),
    );
    assert_eq!(ctx.output, "<ul><li>a</li><ol><li>b</li></ol></ul>");
}

#[test]
fn collapsible_renders_buttons_and_content() {
    let mut ctx = ctx();
    let elements = vec![text("inside")];
    let attributes = AttributeMap::new();
    let collapsible = Collapsible::new(
        elements.as_slice(),
        &attributes,
        true,
        Some("more"),
        Some("less"),
        true,
        true,
    );
    render_collapsible(&mut ctx, collapsible);
    assert!(ctx.output.contains("<details class=\"wj-collapsible\" open data-show-top data-show-bottom>"));
    assert!(ctx.output.contains("more"));
    assert!(ctx.output.contains("less"));
    assert!(ctx.output.contains("inside"));
    assert!(ctx.output.contains("wj-collapsible-button-bottom"));
}

#[test]
fn generate_ids_are_sequential() {
    let mut ids = IdGenerator { counter: 0 };
    let list = generate_ids(&mut ids, 3);
    assert_eq!(list, vec!["wj-id-0", "wj-id-1", "wj-id-2"]);
}

#[test]
fn render_elements_in_order() {
    let mut ctx = ctx();
    render_elements(&mut ctx, &[text("a"), Element::LineBreak, text("b")]);
    assert_eq!(ctx.output, "a<br>b");
}

#[test]
fn radio_button_renders_input() {
    let mut ctx = ctx();
    render_element(
        &mut ctx,
        &Element::RadioButton {
            name: "group".to_string(),
            attributes: AttributeMap::new(),
        },
    );
    assert_eq!(ctx.output, "<input type=\"radio\" name=\"group\">");
}

#[test]
fn code_block_renders_escaped() {
    let mut ctx = ctx();
    render_element(
        &mut ctx,
        &Element::Code {
            contents: "if a < b { }".to_string(),
            language: Some("rust".to_string()),
        },
    );
    assert_eq!(
        ctx.output,
        "<pre><code data-language=\"rust\">if a &lt; b { }</code></pre>",
    );
}

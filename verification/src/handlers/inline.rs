//! Inline mode: `@bot question?` from any chat.

use crate::config;
use crate::config::BotConfig;
use crate::handlers::{chat, commands, delivery};
use crate::telegram::render;
use crate::text;
use crate::util;
use vstd::prelude::*;

verus! {

/// A result of an inline query.
#[derive(Debug)]
pub struct Article {
    pub id: String,
    pub title: String,
    pub description: Option<String>,
    /// The message that is sent when the result is chosen.
    pub text: String,
    /// Whether the message is MarkdownV2.
    pub markdown: bool,
}

/// A result as mathematical values.
pub ghost struct ArticleView {
    pub id: Seq<char>,
    pub title: Seq<char>,
    pub description: Option<Seq<char>>,
    pub text: Seq<char>,
    pub markdown: bool,
}

impl View for Article {
    type V = ArticleView;

    open spec fn view(&self) -> ArticleView {
        ArticleView {
            id: self.id@,
            title: self.title@,
            description: text::opt_view(self.description),
            text: self.text@,
            markdown: self.markdown,
        }
    }
}

/// The values of a list of results.
pub open spec fn article_views(list: Seq<Article>) -> Seq<ArticleView> {
    list.map_values(|a: Article| a@)
}

fn article(id: &str, title: &str, description: &str, words: &str, markdown: bool) -> (r: Article)
    ensures
        r@ == (ArticleView {
            id: id@,
            title: title@,
            description: Some(description@),
            text: words@,
            markdown,
        }),
{
    Article {
        id: id.to_string(),
        title: title.to_string(),
        description: Some(description.to_string()),
        text: words.to_string(),
        markdown,
    }
}

/// What is done about an inline query.
#[derive(Debug)]
pub enum InlineStep {
    /// Nothing.
    Ignore,
    /// These results are shown.
    Show(Vec<Article>),
    /// The agent at this place is asked this question.
    Ask(usize, String),
}

/// Whether a query is a finished question.
pub open spec fn is_finished(query: Seq<char>) -> bool {
    query.len() >= 3 && query.last() == '?'
}

/// The hint that a query is not finished.
pub open spec fn hint_for(query: Seq<char>) -> ArticleView {
    ArticleView {
        id: "hint"@,
        title: "Finish with ? to get an answer"@,
        description: Some(query),
        text: query,
        markdown: false,
    }
}

/// The agent and question of a finished query: a tag counts where it names an
/// agent and words follow it.
pub open spec fn inline_question(agents: Seq<config::AgentView>, query: Seq<char>) -> (
    int,
    Seq<char>,
) {
    let rest = query.skip(1);
    let i = text::space_at(rest);
    let named = config::agent_from(agents, text::lower(rest.take(i)), 0);
    if "#"@.is_prefix_of(query) && i < rest.len() && named is Some {
        (named->0, text::trim(rest.skip(i + 1)))
    } else {
        (config::default_index(agents), query)
    }
}

/// Decides what is done about an inline query.
pub fn handle(cfg: &BotConfig, raw: &str) -> (r: InlineStep)
    requires
        cfg.inline && is_finished(text::trim(raw@)) ==> cfg@.agents.len() > 0,
    ensures
        ({
            let query = text::trim(raw@);
            if !cfg.inline {
                r is Ignore
            } else if query.len() < 3 {
                r matches InlineStep::Show(v) && v@.len() == 0
            } else if !is_finished(query) {
                r matches InlineStep::Show(v) && article_views(v@) == seq![hint_for(query)]
            } else {
                r matches InlineStep::Ask(i, q) && (i as int, q@) == inline_question(
                    cfg@.agents,
                    query,
                ) && i < cfg.agents@.len()
            }
        }),
{
    if !cfg.inline {
        return InlineStep::Ignore;
    }
    let query = text::trimmed(raw);
    let v = text::chars_of(query.as_str());
    if v.len() < 3 {
        return InlineStep::Show(Vec::new());
    }
    if v[v.len() - 1] != '?' {
        let mut list: Vec<Article> = Vec::new();
        list.push(
            article(
                "hint",
                "Finish with ? to get an answer",
                query.as_str(),
                query.as_str(),
                false,
            ),
        );
        assert(article_views(list@) =~= seq![hint_for(query@)]);
        return InlineStep::Show(list);
    }
    if text::starts_with(query.as_str(), "#") {
        proof {
            reveal_strlit("#");
        }
        let rest = text::skip_chars(query.as_str(), 1);
        let (tag, tail) = commands::split_at_space(rest.as_str());
        if text::char_count(tail.as_str()) > 0 {
            match chat::agent_index(cfg, tag.as_str()) {
                Some(i) => {
                    let after = text::skip_chars(tail.as_str(), 1);
                    assert(after@ =~= rest@.skip(text::space_at(rest@) + 1));
                    return InlineStep::Ask(i, text::trimmed(after.as_str()));
                },
                None => {},
            }
        }
    }
    InlineStep::Ask(chat::default_agent_index(cfg), query)
}

/// The result that is shown where no answer came.
pub open spec fn failure_article(query: Seq<char>) -> ArticleView {
    ArticleView {
        id: "error"@,
        title: "Couldn't get an answer right now"@,
        description: Some("Try again in a moment"@),
        text: query,
        markdown: false,
    }
}

/// The result that is shown where no answer came; `raw` is the query.
pub fn failure(raw: &str) -> (r: Article)
    ensures
        r@ == failure_article(text::trim(raw@)),
{
    let query = text::trimmed(raw);
    article(
        "error",
        "Couldn't get an answer right now",
        "Try again in a moment",
        query.as_str(),
        false,
    )
}

/// The results for an answer: once with markup, once without.
pub open spec fn answer_articles(question: Seq<char>, body: Seq<char>) -> Seq<ArticleView> {
    let plain = render::plain_of(body);
    let preview = util::truncated(text::replace_char(plain, '\n', " "@), 100);
    seq![
        ArticleView {
            id: "answer"@,
            title: "Answer"@,
            description: Some(preview),
            text: delivery::first_or_empty(
                render::packed(
                    render::v2_blocks("*Q:* "@ + question + "\n\n"@ + body),
                    render::TG_TEXT_LIMIT as int,
                ),
            ),
            markdown: true,
        },
        ArticleView {
            id: "answer_plain"@,
            title: "Answer (plain text)"@,
            description: Some(preview),
            text: util::truncated(
                "Q: "@ + question + "\n\n"@ + plain,
                render::TG_TEXT_LIMIT as nat,
            ),
            markdown: false,
        },
    ]
}

/// The results for an answer.
pub fn results(question: &str, answer: &str) -> (r: Vec<Article>)
    ensures
        article_views(r@) == answer_articles(
            question@,
            render::without_images(crate::pattern::found_in(render::IMAGE@, answer@)).0,
        ),
{
    let (body, _) = render::strip_images(answer);
    let plain = render::markdown_to_plain(body.as_str());
    let flat = text::replaced_char(plain.as_str(), '\n', " ");
    let preview = util::truncate_chars(flat.as_str(), 100);
    let mut marked: String = "*Q:* ".to_string();
    marked.append(question);
    marked.append("\n\n");
    marked.append(body.as_str());
    let messages = render::markdown_v2_messages(marked.as_str(), render::TG_TEXT_LIMIT);
    let first = delivery::first_of(&messages);
    let mut bare: String = "Q: ".to_string();
    bare.append(question);
    bare.append("\n\n");
    bare.append(plain.as_str());
    let bare = util::truncate_chars(bare.as_str(), render::TG_TEXT_LIMIT);
    let mut r: Vec<Article> = Vec::new();
    r.push(article("answer", "Answer", preview.as_str(), first.as_str(), true));
    r.push(
        article("answer_plain", "Answer (plain text)", preview.as_str(), bare.as_str(), false),
    );
    assert(article_views(r@) =~= answer_articles(question@, body@));
    r
}

}

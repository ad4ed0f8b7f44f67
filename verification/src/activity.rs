use vstd::prelude::*;

use crate::text_util::{push_chars, push_str, trim_chars, trimmed};
use crate::unicode::{str_chars, str_eq, string_from_chars};

verus! {

/// What is drawn before an activity's text.
#[derive(Clone, Debug, PartialEq, Eq)]
pub enum ActivityLeading {
    /// Nothing.
    Blank,
    /// A one-char accent: `▶` playing, `◉` streaming, `♪` listening, `▷` watching.
    Icon(char),
    /// A custom emoji image overlaid on a two-cell placeholder; the URL keys the image
    /// cache and the overlay.
    Image(String),
}

/// An activity line: what leads it and its text.
#[derive(Clone, Debug, PartialEq, Eq)]
pub struct ActivityRender {
    pub leading: ActivityLeading,
    pub body: String,
}

/// The activity line as plain text: the icon and a space before the text, a
/// placeholder of two cells (and a space) for an image.
pub open spec fn activity_display_text(render: ActivityRender) -> Seq<char> {
    match render.leading {
        ActivityLeading::Blank => render.body@,
        ActivityLeading::Icon(c) => if render.body@.len() == 0 {
            seq![c]
        } else {
            seq![c, ' '] + render.body@
        },
        ActivityLeading::Image(_) => if render.body@.len() == 0 {
            seq![' ', ' ']
        } else {
            seq![' ', ' ', ' '] + render.body@
        },
    }
}

impl ActivityRender {
    /// Whether the line shows nothing: no leading mark and only whitespace.
    pub fn is_empty(&self) -> (r: bool)
        ensures
            r == (self.leading == ActivityLeading::Blank && trimmed(self.body@).len() == 0),
    {
        let none = match &self.leading {
            ActivityLeading::Blank => true,
            _ => false,
        };
        none && trim_chars(&str_chars(self.body.as_str())).len() == 0
    }

    /// The line as plain text.
    pub fn to_display_string(&self) -> (r: String)
        ensures
            r@ == activity_display_text(*self),
    {
        let body = str_chars(self.body.as_str());
        let mut out: Vec<char> = Vec::new();
        match &self.leading {
            ActivityLeading::Blank => {
                push_chars(&mut out, &body);
            },
            ActivityLeading::Icon(c) => {
                out.push(*c);
                if body.len() > 0 {
                    out.push(' ');
                    push_chars(&mut out, &body);
                }
            },
            ActivityLeading::Image(_) => {
                out.push(' ');
                out.push(' ');
                if body.len() > 0 {
                    out.push(' ');
                    push_chars(&mut out, &body);
                }
            },
        }
        proof {
            assert(out@ =~= activity_display_text(*self));
        }
        string_from_chars(out.as_slice())
    }
}

/// What a user is doing, as the activity's kind tells it.
#[derive(Clone, Copy, Debug, PartialEq, Eq, Structural)]
pub enum ActivityKind {
    Playing,
    Streaming,
    Listening,
    Watching,
    Custom,
    Competing,
    Unknown,
}

/// What leads an activity line, with the image URL taken as chars.
pub enum ActivityLeadingView {
    Blank,
    Icon(char),
    Image(Seq<char>),
}

/// An activity line taken as plain values: what leads it and its text.
pub open spec fn render_view(r: ActivityRender) -> (ActivityLeadingView, Seq<char>) {
    (
        match r.leading {
            ActivityLeading::Blank => ActivityLeadingView::Blank,
            ActivityLeading::Icon(c) => ActivityLeadingView::Icon(c),
            ActivityLeading::Image(url) => ActivityLeadingView::Image(url@),
        },
        r.body@,
    )
}

/// An optional text taken as chars.
pub open spec fn opt_chars(s: Option<&str>) -> Option<Seq<char>> {
    match s {
        Some(t) => Some(t@),
        None => None,
    }
}

/// The text of a listening activity: in compact form the track and artist follow
/// the name (`name - track by artist`, or `name - track`); otherwise the name.
pub open spec fn listening_body(
    name: Seq<char>,
    details: Option<Seq<char>>,
    state: Option<Seq<char>>,
    compact: bool,
) -> Seq<char> {
    if !compact {
        name
    } else {
        match (details, state) {
            (Some(track), Some(artist)) => name + " - "@ + track + " by "@ + artist,
            (Some(track), None) => name + " - "@ + track,
            _ => name,
        }
    }
}

/// The line of a custom status: its emoji as an image when that image is loaded,
/// before the status text; otherwise the emoji's text and the status text, a space
/// between them when both are there.
pub open spec fn custom_render(
    state: Option<Seq<char>>,
    emoji_image_url: Option<Seq<char>>,
    emoji_text: Option<Seq<char>>,
    loaded_emoji_urls: Seq<Seq<char>>,
) -> (ActivityLeadingView, Seq<char>) {
    let body_text = match state {
        Some(t) => t,
        None => Seq::empty(),
    };
    match emoji_image_url {
        Some(url) if loaded_emoji_urls.contains(url) => (ActivityLeadingView::Image(url), body_text),
        _ => {
            let emoji = match emoji_text {
                Some(t) => t,
                None => Seq::empty(),
            };
            let body = if emoji.len() == 0 {
                body_text
            } else if body_text.len() == 0 {
                emoji
            } else {
                emoji + " "@ + body_text
            };
            (ActivityLeadingView::Blank, body)
        },
    }
}

/// The activity line of an activity: `▶` playing, `◉` streaming, `♪` listening and
/// `▷` watching lead its name; a competition reads `Competing in` and the name; an
/// unknown kind shows the name alone; a custom status is `custom_render`.
pub open spec fn activity_render_spec(
    kind: ActivityKind,
    name: Seq<char>,
    details: Option<Seq<char>>,
    state: Option<Seq<char>>,
    emoji_image_url: Option<Seq<char>>,
    emoji_text: Option<Seq<char>>,
    loaded_emoji_urls: Seq<Seq<char>>,
    compact: bool,
) -> (ActivityLeadingView, Seq<char>) {
    match kind {
        ActivityKind::Custom => custom_render(state, emoji_image_url, emoji_text, loaded_emoji_urls),
        ActivityKind::Playing => (ActivityLeadingView::Icon('\u{25B6}'), name),
        ActivityKind::Streaming => (ActivityLeadingView::Icon('\u{25C9}'), name),
        ActivityKind::Listening => (
            ActivityLeadingView::Icon('\u{266A}'),
            listening_body(name, details, state, compact),
        ),
        ActivityKind::Watching => (ActivityLeadingView::Icon('\u{25B7}'), name),
        ActivityKind::Competing => (ActivityLeadingView::Blank, "Competing in "@ + name),
        ActivityKind::Unknown => (ActivityLeadingView::Blank, name),
    }
}

/// The chars of each URL.
pub open spec fn url_chars(v: Seq<String>) -> Seq<Seq<char>> {
    v.map_values(|s: String| s@)
}

/// Whether `url` is one of `urls`.
fn contains_url(urls: &Vec<String>, url: &str) -> (r: bool)
    ensures
        r == url_chars(urls@).contains(url@),
{
    let mut i: usize = 0;
    while i < urls.len()
        invariant
            i <= urls@.len(),
            forall|j: int| 0 <= j < i ==> urls@[j]@ != url@,
        decreases urls@.len() - i,
    {
        if str_eq(urls[i].as_str(), url) {
            proof {
                assert(url_chars(urls@)[i as int] == url@);
            }
            return true;
        }
        i = i + 1;
    }
    proof {
        if url_chars(urls@).contains(url@) {
            let j = choose|j: int| 0 <= j < url_chars(urls@).len() && url_chars(urls@)[j] == url@;
            assert(urls@[j]@ == url@);
        }
    }
    false
}

/// The line of a custom status (see `custom_render`).
fn build_custom(
    state: Option<&str>,
    emoji_image_url: Option<&str>,
    emoji_text: Option<&str>,
    loaded_emoji_urls: &Vec<String>,
) -> (r: ActivityRender)
    ensures
        render_view(r) == custom_render(
            opt_chars(state),
            opt_chars(emoji_image_url),
            opt_chars(emoji_text),
            url_chars(loaded_emoji_urls@),
        ),
{
    let body_text = match state {
        Some(t) => String::from_str(t),
        None => String::new(),
    };
    if let Some(url) = emoji_image_url {
        if contains_url(loaded_emoji_urls, url) {
            return ActivityRender { leading: ActivityLeading::Image(String::from_str(url)), body: body_text };
        }
    }
    let emoji = match emoji_text {
        Some(t) => String::from_str(t),
        None => String::new(),
    };
    let emoji_empty = emoji.as_str().is_empty();
    let body_empty = body_text.as_str().is_empty();
    let body = if emoji_empty {
        body_text
    } else if body_empty {
        emoji
    } else {
        let mut out: Vec<char> = Vec::new();
        push_str(&mut out, emoji.as_str());
        out.push(' ');
        push_str(&mut out, body_text.as_str());
        proof {
            reveal_strlit(" ");
            assert(out@ =~= emoji@ + " "@ + body_text@);
        }
        string_from_chars(out.as_slice())
    };
    ActivityRender { leading: ActivityLeading::Blank, body }
}

/// The activity line of an activity (see `activity_render_spec`). The texts are
/// given as they are to be shown, already made safe for the terminal;
/// `emoji_image_url` is the custom status emoji's image, `emoji_text` its text
/// (`:name:` for a custom emoji), and `loaded_emoji_urls` the emoji images ready to
/// draw. `compact` adds a song's track and artist.
pub fn build_activity_render(
    kind: ActivityKind,
    name: &str,
    details: Option<&str>,
    state: Option<&str>,
    emoji_image_url: Option<&str>,
    emoji_text: Option<&str>,
    loaded_emoji_urls: &Vec<String>,
    compact: bool,
) -> (r: ActivityRender)
    ensures
        render_view(r) == activity_render_spec(
            kind,
            name@,
            opt_chars(details),
            opt_chars(state),
            opt_chars(emoji_image_url),
            opt_chars(emoji_text),
            url_chars(loaded_emoji_urls@),
            compact,
        ),
{
    match kind {
        ActivityKind::Custom => build_custom(state, emoji_image_url, emoji_text, loaded_emoji_urls),
        ActivityKind::Playing => ActivityRender {
            leading: ActivityLeading::Icon('\u{25B6}'),
            body: String::from_str(name),
        },
        ActivityKind::Streaming => ActivityRender {
            leading: ActivityLeading::Icon('\u{25C9}'),
            body: String::from_str(name),
        },
        ActivityKind::Listening => {
            let mut out: Vec<char> = Vec::new();
            push_str(&mut out, name);
            if compact {
                match (details, state) {
                    (Some(track), Some(artist)) => {
                        push_str(&mut out, " - ");
                        push_str(&mut out, track);
                        push_str(&mut out, " by ");
                        push_str(&mut out, artist);
                    },
                    (Some(track), None) => {
                        push_str(&mut out, " - ");
                        push_str(&mut out, track);
                    },
                    _ => {},
                }
            }
            proof {
                reveal_strlit(" - ");
                reveal_strlit(" by ");
                assert(out@ =~= listening_body(name@, opt_chars(details), opt_chars(state), compact));
            }
            ActivityRender { leading: ActivityLeading::Icon('\u{266A}'), body: string_from_chars(out.as_slice()) }
        },
        ActivityKind::Watching => ActivityRender {
            leading: ActivityLeading::Icon('\u{25B7}'),
            body: String::from_str(name),
        },
        ActivityKind::Competing => {
            let mut out: Vec<char> = Vec::new();
            push_str(&mut out, "Competing in ");
            push_str(&mut out, name);
            ActivityRender { leading: ActivityLeading::Blank, body: string_from_chars(out.as_slice()) }
        },
        ActivityKind::Unknown => ActivityRender { leading: ActivityLeading::Blank, body: String::from_str(name) },
    }
}

} // verus!

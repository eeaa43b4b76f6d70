//! Streaming HTML link extraction.
//!
//! The extractor consumes a document one character at a time through a small,
//! tolerant tokenizer and collects the `href` attribute value of every anchor
//! (`a`) start tag, in document order. Malformed markup never aborts the
//! scan: input that does not form a recognizable tag is passed over.
//!
//! Attribute values are taken verbatim (no decoding, no trimming). Tag names
//! are matched ASCII-case-insensitively, as standard tokenization lowercases
//! them; attribute names are matched exactly against the literal `href`.

use vstd::prelude::*;
use vstd::string::StrSliceExecFns;

verus! {

/// Where the tokenizer stands inside the document.
pub enum TokState {
    /// Ordinary character data.
    Text,
    /// Just after `<`.
    TagOpen,
    /// Inside `</...`; everything up to `>` is skipped.
    EndTag,
    /// Reading a start tag's name.
    TagName,
    /// Between attributes inside a start tag.
    BeforeAttrName,
    /// Reading an attribute name.
    AttrName,
    /// After an attribute name, before `=`, another attribute, or the close.
    AfterAttrName,
    /// After `=`, before the attribute value.
    BeforeAttrValue,
    /// Inside a double-quoted attribute value.
    ValueDq,
    /// Inside a single-quoted attribute value.
    ValueSq,
    /// Inside an unquoted attribute value.
    ValueUnq,
    /// Inside `<!...>` or `<?...>`; everything up to `>` is skipped.
    Bogus,
}

/// How much of the literal attribute name `href` the current attribute name
/// has matched so far; `Miss` once it can no longer be exactly `href`.
pub enum HrefProgress {
    H1,
    H2,
    H3,
    H4,
    Miss,
}

/// The mathematical state of the extractor.
#[verifier::ext_equal]
pub ghost struct SinkModel {
    pub state: TokState,
    pub is_anchor: bool,
    pub href: HrefProgress,
    pub value: Seq<char>,
    pub pending: Option<Seq<char>>,
    pub links: Seq<Seq<char>>,
}

/// ASCII whitespace, as tokenization separates attributes.
pub open spec fn is_space(c: char) -> bool {
    c == ' ' || c == '\t' || c == '\n' || c == '\r' || c == '\x0c'
}

/// ASCII letter: a tag opens only when `<` is followed by one.
pub open spec fn is_alpha(c: char) -> bool {
    (97 <= c as u32 && c as u32 <= 122) || (65 <= c as u32 && c as u32 <= 90)
}

/// Progress of the attribute-name match after its first character.
pub open spec fn href_start(c: char) -> HrefProgress {
    if c == 'h' {
        HrefProgress::H1
    } else {
        HrefProgress::Miss
    }
}

/// Progress of the attribute-name match after one more character.
pub open spec fn href_advance(h: HrefProgress, c: char) -> HrefProgress {
    match h {
        HrefProgress::H1 => if c == 'r' {
            HrefProgress::H2
        } else {
            HrefProgress::Miss
        },
        HrefProgress::H2 => if c == 'e' {
            HrefProgress::H3
        } else {
            HrefProgress::Miss
        },
        HrefProgress::H3 => if c == 'f' {
            HrefProgress::H4
        } else {
            HrefProgress::Miss
        },
        HrefProgress::H4 => HrefProgress::Miss,
        HrefProgress::Miss => HrefProgress::Miss,
    }
}

/// An attribute is complete: if its name was exactly `href` and no earlier
/// `href` was seen on this tag, its value becomes the tag's pending link.
pub open spec fn finish_attr_model(m: SinkModel) -> SinkModel {
    if m.href is H4 && m.pending is None {
        SinkModel { pending: Some(m.value), ..m }
    } else {
        m
    }
}

/// A start tag is complete: an anchor with a pending `href` value appends
/// that value to the extracted links.
pub open spec fn emit_tag_model(m: SinkModel) -> SinkModel {
    SinkModel {
        state: TokState::Text,
        pending: None,
        links: if m.is_anchor && m.pending is Some {
            m.links.push(m.pending->0)
        } else {
            m.links
        },
        ..m
    }
}

/// The extractor before any input.
pub open spec fn init_model() -> SinkModel {
    SinkModel {
        state: TokState::Text,
        is_anchor: false,
        href: HrefProgress::Miss,
        value: Seq::empty(),
        pending: None,
        links: Seq::empty(),
    }
}

/// One character of input moves the extractor from `m` to `step_model(m, c)`.
pub open spec fn step_model(m: SinkModel, c: char) -> SinkModel {
    match m.state {
        TokState::Text => if c == '<' {
            SinkModel { state: TokState::TagOpen, ..m }
        } else {
            m
        },
        TokState::TagOpen => if c == '/' {
            SinkModel { state: TokState::EndTag, ..m }
        } else if c == '!' || c == '?' {
            SinkModel { state: TokState::Bogus, ..m }
        } else if is_alpha(c) {
            SinkModel {
                state: TokState::TagName,
                is_anchor: c == 'a' || c == 'A',
                pending: None,
                ..m
            }
        } else if c == '<' {
            m
        } else {
            SinkModel { state: TokState::Text, ..m }
        },
        TokState::EndTag => if c == '>' {
            SinkModel { state: TokState::Text, ..m }
        } else {
            m
        },
        TokState::TagName => if is_space(c) || c == '/' {
            SinkModel { state: TokState::BeforeAttrName, ..m }
        } else if c == '>' {
            emit_tag_model(m)
        } else {
            SinkModel { is_anchor: false, ..m }
        },
        TokState::BeforeAttrName => if is_space(c) || c == '/' {
            m
        } else if c == '>' {
            emit_tag_model(m)
        } else {
            SinkModel { state: TokState::AttrName, href: href_start(c), value: Seq::empty(), ..m }
        },
        TokState::AttrName => if is_space(c) {
            SinkModel { state: TokState::AfterAttrName, ..m }
        } else if c == '=' {
            SinkModel { state: TokState::BeforeAttrValue, ..m }
        } else if c == '>' {
            emit_tag_model(finish_attr_model(m))
        } else if c == '/' {
            SinkModel { state: TokState::BeforeAttrName, ..finish_attr_model(m) }
        } else {
            SinkModel { href: href_advance(m.href, c), ..m }
        },
        TokState::AfterAttrName => if is_space(c) {
            m
        } else if c == '=' {
            SinkModel { state: TokState::BeforeAttrValue, ..m }
        } else if c == '>' {
            emit_tag_model(finish_attr_model(m))
        } else if c == '/' {
            SinkModel { state: TokState::BeforeAttrName, ..finish_attr_model(m) }
        } else {
            SinkModel {
                state: TokState::AttrName,
                href: href_start(c),
                value: Seq::empty(),
                ..finish_attr_model(m)
            }
        },
        TokState::BeforeAttrValue => if is_space(c) {
            m
        } else if c == '"' {
            SinkModel { state: TokState::ValueDq, value: Seq::empty(), ..m }
        } else if c == '\'' {
            SinkModel { state: TokState::ValueSq, value: Seq::empty(), ..m }
        } else if c == '>' {
            emit_tag_model(finish_attr_model(m))
        } else {
            SinkModel { state: TokState::ValueUnq, value: Seq::<char>::empty().push(c), ..m }
        },
        TokState::ValueDq => if c == '"' {
            SinkModel { state: TokState::BeforeAttrName, ..finish_attr_model(m) }
        } else {
            SinkModel { value: m.value.push(c), ..m }
        },
        TokState::ValueSq => if c == '\'' {
            SinkModel { state: TokState::BeforeAttrName, ..finish_attr_model(m) }
        } else {
            SinkModel { value: m.value.push(c), ..m }
        },
        TokState::ValueUnq => if is_space(c) {
            SinkModel { state: TokState::BeforeAttrName, ..finish_attr_model(m) }
        } else if c == '>' {
            emit_tag_model(finish_attr_model(m))
        } else {
            SinkModel { value: m.value.push(c), ..m }
        },
        TokState::Bogus => if c == '>' {
            SinkModel { state: TokState::Text, ..m }
        } else {
            m
        },
    }
}

/// The extractor state after consuming all of `s`, starting from `m`.
pub open spec fn run_model(m: SinkModel, s: Seq<char>) -> SinkModel
    decreases s.len(),
{
    if s.len() == 0 {
        m
    } else {
        step_model(run_model(m, s.drop_last()), s.last())
    }
}

/// The links extracted from a whole document, in document order.
pub open spec fn extracted_hrefs(html: Seq<char>) -> Seq<Seq<char>> {
    run_model(init_model(), html).links
}

/// Relies on `String::push`: appends exactly the given character at the end.
#[verifier::external_body]
fn push_char(s: &mut String, c: char)
    ensures
        final(s)@ == old(s)@.push(c),
{
    s.push(c);
}

/// The token sink: the extractor's running state together with the links
/// collected so far.
pub struct Sink {
    state: TokState,
    is_anchor: bool,
    href: HrefProgress,
    value: String,
    pending: Option<String>,
    links: Vec<String>,
}

impl View for Sink {
    type V = SinkModel;

    closed spec fn view(&self) -> SinkModel {
        SinkModel {
            state: self.state,
            is_anchor: self.is_anchor,
            href: self.href,
            value: self.value@,
            pending: self.pending.deep_view(),
            links: self.links.deep_view(),
        }
    }
}

impl Default for Sink {
    fn default() -> (s: Sink)
        ensures
            s@ == init_model(),
    {
        Sink::new()
    }
}

impl Sink {
    /// A fresh extractor with no input consumed.
    pub fn new() -> (s: Sink)
        ensures
            s@ == init_model(),
    {
        let s = Sink {
            state: TokState::Text,
            is_anchor: false,
            href: HrefProgress::Miss,
            value: String::new(),
            pending: None,
            links: Vec::new(),
        };
        proof {
            assert(s@ =~= init_model());
        }
        s
    }

    fn finish_attr(&mut self)
        ensures
            final(self)@ == finish_attr_model(old(self)@),
    {
        let take_it = match (&self.href, &self.pending) {
            (HrefProgress::H4, None) => true,
            _ => false,
        };
        if take_it {
            self.pending = Some(self.value.clone());
        }
        proof {
            assert(self@ =~= finish_attr_model(old(self)@));
        }
    }

    fn emit_tag(&mut self)
        ensures
            final(self)@ == emit_tag_model(old(self)@),
    {
        self.state = TokState::Text;
        let mut link: Option<String> = None;
        if self.is_anchor {
            match &self.pending {
                Some(v) => {
                    link = Some(v.clone());
                },
                None => {},
            }
        }
        match link {
            Some(v) => {
                self.links.push(v);
                proof {
                    assert(self.links.deep_view() =~= old(self).links.deep_view().push(
                        old(self)@.pending->0,
                    ));
                }
            },
            None => {},
        }
        self.pending = None;
        proof {
            assert(self@ =~= emit_tag_model(old(self)@));
        }
    }

    /// Consume one character of the document.
    pub fn consume(&mut self, c: char)
        ensures
            final(self)@ == step_model(old(self)@, c),
    {
        let space = c == ' ' || c == '\t' || c == '\n' || c == '\r' || c == '\x0c';
        match self.state {
            TokState::Text => {
                if c == '<' {
                    self.state = TokState::TagOpen;
                }
            },
            TokState::TagOpen => {
                let u = c as u32;
                if c == '/' {
                    self.state = TokState::EndTag;
                } else if c == '!' || c == '?' {
                    self.state = TokState::Bogus;
                } else if (97 <= u && u <= 122) || (65 <= u && u <= 90) {
                    self.state = TokState::TagName;
                    self.is_anchor = c == 'a' || c == 'A';
                    self.pending = None;
                } else if c == '<' {
                } else {
                    self.state = TokState::Text;
                }
            },
            TokState::EndTag => {
                if c == '>' {
                    self.state = TokState::Text;
                }
            },
            TokState::TagName => {
                if space || c == '/' {
                    self.state = TokState::BeforeAttrName;
                } else if c == '>' {
                    self.emit_tag();
                } else {
                    self.is_anchor = false;
                }
            },
            TokState::BeforeAttrName => {
                if space || c == '/' {
                } else if c == '>' {
                    self.emit_tag();
                } else {
                    self.state = TokState::AttrName;
                    self.href = if c == 'h' {
                        HrefProgress::H1
                    } else {
                        HrefProgress::Miss
                    };
                    self.value = String::new();
                }
            },
            TokState::AttrName => {
                if space {
                    self.state = TokState::AfterAttrName;
                } else if c == '=' {
                    self.state = TokState::BeforeAttrValue;
                } else if c == '>' {
                    self.finish_attr();
                    self.emit_tag();
                } else if c == '/' {
                    self.finish_attr();
                    self.state = TokState::BeforeAttrName;
                } else {
                    self.href = match self.href {
                        HrefProgress::H1 => if c == 'r' {
                            HrefProgress::H2
                        } else {
                            HrefProgress::Miss
                        },
                        HrefProgress::H2 => if c == 'e' {
                            HrefProgress::H3
                        } else {
                            HrefProgress::Miss
                        },
                        HrefProgress::H3 => if c == 'f' {
                            HrefProgress::H4
                        } else {
                            HrefProgress::Miss
                        },
                        HrefProgress::H4 => HrefProgress::Miss,
                        HrefProgress::Miss => HrefProgress::Miss,
                    };
                }
            },
            TokState::AfterAttrName => {
                if space {
                } else if c == '=' {
                    self.state = TokState::BeforeAttrValue;
                } else if c == '>' {
                    self.finish_attr();
                    self.emit_tag();
                } else if c == '/' {
                    self.finish_attr();
                    self.state = TokState::BeforeAttrName;
                } else {
                    self.finish_attr();
                    self.state = TokState::AttrName;
                    self.href = if c == 'h' {
                        HrefProgress::H1
                    } else {
                        HrefProgress::Miss
                    };
                    self.value = String::new();
                }
            },
            TokState::BeforeAttrValue => {
                if space {
                } else if c == '"' {
                    self.state = TokState::ValueDq;
                    self.value = String::new();
                } else if c == '\'' {
                    self.state = TokState::ValueSq;
                    self.value = String::new();
                } else if c == '>' {
                    self.finish_attr();
                    self.emit_tag();
                } else {
                    self.state = TokState::ValueUnq;
                    self.value = String::new();
                    push_char(&mut self.value, c);
                }
            },
            TokState::ValueDq => {
                if c == '"' {
                    self.finish_attr();
                    self.state = TokState::BeforeAttrName;
                } else {
                    push_char(&mut self.value, c);
                }
            },
            TokState::ValueSq => {
                if c == '\'' {
                    self.finish_attr();
                    self.state = TokState::BeforeAttrName;
                } else {
                    push_char(&mut self.value, c);
                }
            },
            TokState::ValueUnq => {
                if space {
                    self.finish_attr();
                    self.state = TokState::BeforeAttrName;
                } else if c == '>' {
                    self.finish_attr();
                    self.emit_tag();
                } else {
                    push_char(&mut self.value, c);
                }
            },
            TokState::Bogus => {
                if c == '>' {
                    self.state = TokState::Text;
                }
            },
        }
        proof {
            assert(self@ =~= step_model(old(self)@, c));
        }
    }

    /// The links collected so far, in document order.
    pub fn into_links(self) -> (links: Vec<String>)
        ensures
            links.deep_view() == self@.links,
    {
        self.links
    }
}

/// Extract every anchor `href` value of the document, in document order.
pub fn extract_links(html: &str) -> (links: Vec<String>)
    ensures
        links.deep_view() == extracted_hrefs(html@),
{
    let mut sink = Sink::new();
    let n = html.unicode_len();
    let mut i: usize = 0;
    while i < n
        invariant
            i <= n,
            n == html@.len(),
            sink@ == run_model(init_model(), html@.take(i as int)),
        decreases n - i,
    {
        let c = html.get_char(i);
        sink.consume(c);
        proof {
            assert(html@.take(i + 1 as int).drop_last() =~= html@.take(i as int));
            assert(html@.take(i + 1 as int).last() == html@[i as int]);
        }
        i += 1;
    }
    proof {
        assert(html@.take(n as int) =~= html@);
    }
    sink.into_links()
}

} // verus!

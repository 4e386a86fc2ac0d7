//! Choosing how a document is read, and describing what was read.

use vstd::prelude::*;

use crate::llm_client::{join_all, joined};
use crate::text::{
    decimal, decimal_text, digit_char, has_substring, is_absolute, is_absolute_uri, same_text,
    texts, trim, trimmed,
};
use crate::text_map::{find_from, upsert, Entries, TextMap};

verus! {

/// The ways of reading a document.
#[derive(Debug, Clone, Copy, PartialEq, Eq, Structural)]
pub enum HandlerKind {
    /// A PDF file.
    Pdf,
    /// A file of plain text.
    Text,
    /// A page fetched from the web.
    Url,
}

impl HandlerKind {
    /// The name of the kind as metadata writes it.
    pub open spec fn label(self) -> Seq<char> {
        match self {
            HandlerKind::Pdf => "pdf"@,
            HandlerKind::Text => "text"@,
            HandlerKind::Url => "url"@,
        }
    }

    /// Writes the name of the kind.
    pub fn name(self) -> (r: &'static str)
        ensures
            r@ == self.label(),
    {
        match self {
            HandlerKind::Pdf => "pdf",
            HandlerKind::Text => "text",
            HandlerKind::Url => "url",
        }
    }
}

/// Reads PDF files.
#[derive(Debug, Clone, Copy, PartialEq, Eq, Structural)]
pub struct PdfHandler;

/// Reads files of plain text.
#[derive(Debug, Clone, Copy, PartialEq, Eq, Structural)]
pub struct TextHandler;

/// Reads pages from the web.
#[derive(Debug, Clone, Copy, PartialEq, Eq, Structural)]
pub struct UrlHandler;

/// A document that was read.
#[derive(Debug)]
pub struct ProcessedDocument {
    pub source: String,
    pub text: String,
    pub metadata: TextMap,
}

/// The metadata of a file: its source, the kind of handler that read it,
/// and its size in bytes where the size is known.
pub open spec fn file_metadata(source: Seq<char>, kind: HandlerKind, size: Option<u64>) -> Entries {
    let base = seq![("source"@, source), ("type"@, kind.label())];
    match size {
        Some(n) => base.push(("size"@, decimal(n as nat))),
        None => base,
    }
}

/// Describes a file.
pub fn describe_file(source: &str, kind: HandlerKind, size: Option<u64>) -> (metadata: TextMap)
    ensures
        metadata@ == file_metadata(source@, kind, size),
{
    let mut metadata = TextMap::new();
    proof {
        reveal_with_fuel(find_from, 4);
        reveal_strlit("source");
        reveal_strlit("type");
        reveal_strlit("size");
        assert("source"@[1] != "type"@[1]);
        assert("source"@[1] != "size"@[1]);
        assert("type"@[0] != "size"@[0]);
    }
    metadata.insert("source".to_string(), source.to_string());
    metadata.insert("type".to_string(), kind.name().to_string());
    match size {
        Some(n) => {
            metadata.insert("size".to_string(), decimal_text_u64(n));
        },
        None => {},
    }
    assert(metadata@ =~= file_metadata(source@, kind, size));
    metadata
}

/// The decimal numeral of `n`.
pub fn decimal_text_u64(n: u64) -> (r: String)
    ensures
        r@ == decimal(n as nat),
    decreases n,
{
    if n < 10 {
        decimal_text(n as usize)
    } else {
        let mut out = decimal_text_u64(n / 10);
        out.append(decimal_text((n % 10) as usize).as_str());
        assert(decimal((n % 10) as nat) =~= seq![digit_char((n % 10) as nat)]);
        out
    }
}

impl PdfHandler {
    /// The metadata of a PDF file.
    pub fn metadata(&self, source: &str, size: Option<u64>) -> (metadata: TextMap)
        ensures
            metadata@ == file_metadata(source@, HandlerKind::Pdf, size),
    {
        describe_file(source, HandlerKind::Pdf, size)
    }
}

impl TextHandler {
    /// The metadata of a text file.
    pub fn metadata(&self, source: &str, size: Option<u64>) -> (metadata: TextMap)
        ensures
            metadata@ == file_metadata(source@, HandlerKind::Text, size),
    {
        describe_file(source, HandlerKind::Text, size)
    }
}

/// What the head of a page says of it.
#[derive(Debug)]
pub struct PageHead {
    /// The content of the `title` element, if the page has one.
    pub title: Option<String>,
    /// The `meta` elements that have both a name and a content, in order.
    pub meta: Vec<(String, String)>,
}

/// The `meta` elements as contracts see them.
pub open spec fn meta_views(meta: Seq<(String, String)>) -> Entries {
    Seq::new(meta.len(), |i: int| (meta[i].0@, meta[i].1@))
}

/// Whether a `meta` element of this name goes into the metadata.
pub open spec fn is_kept_meta(name: Seq<char>) -> bool {
    name == "description"@ || name == "keywords"@ || name == "author"@
}

/// `metadata` with the descriptions, keywords and authors of `meta`.
pub open spec fn with_meta(metadata: Entries, meta: Entries) -> Entries
    decreases meta.len(),
{
    if meta.len() == 0 {
        metadata
    } else if is_kept_meta(meta.last().0) {
        upsert(with_meta(metadata, meta.drop_last()), meta.last().0, meta.last().1)
    } else {
        with_meta(metadata, meta.drop_last())
    }
}

/// The metadata of a page: its source, its kind, its title where it has
/// one, and its description, keywords and author where it names them.
pub open spec fn page_metadata(source: Seq<char>, title: Option<Seq<char>>, meta: Entries) -> Entries {
    let base = seq![("source"@, source), ("type"@, "url"@)];
    let titled = match title {
        Some(t) => upsert(base, "title"@, t),
        None => base,
    };
    with_meta(titled, meta)
}

impl UrlHandler {
    /// A handler for pages.
    pub fn new() -> (handler: Self)
        ensures
            handler == UrlHandler,
    {
        UrlHandler
    }

    /// The metadata of a page.
    pub fn metadata(&self, source: &str, head: &PageHead) -> (metadata: TextMap)
        ensures
            metadata@ == page_metadata(
                source@,
                match head.title {
                    Some(t) => Some(t@),
                    None => None,
                },
                meta_views(head.meta@),
            ),
    {
        let mut metadata = describe_file(source, HandlerKind::Url, None);
        match &head.title {
            Some(t) => {
                metadata.insert("title".to_string(), t.clone());
            },
            None => {},
        }
        let ghost titled = metadata@;
        let ghost meta = meta_views(head.meta@);
        let mut i: usize = 0;
        assert(meta.take(0) =~= Entries::empty());
        while i < head.meta.len()
            invariant
                i <= head.meta.len(),
                meta == meta_views(head.meta@),
                metadata@ == with_meta(titled, meta.take(i as int)),
            decreases head.meta.len() - i,
        {
            proof {
                let next = meta.take(i + 1);
                assert(next.drop_last() == meta.take(i as int));
                assert(next.last() == (head.meta@[i as int].0@, head.meta@[i as int].1@));
            }
            let name = head.meta[i].0.as_str();
            if same_text(name, "description") || same_text(name, "keywords") || same_text(
                name,
                "author",
            ) {
                metadata.insert(head.meta[i].0.clone(), head.meta[i].1.clone());
            }
            i += 1;
        }
        assert(meta.take(meta.len() as int) == meta);
        metadata
    }
}

/// An element of a page: its name and the pieces of text inside it.
#[derive(Debug)]
pub struct PageElement {
    pub name: String,
    pub pieces: Vec<String>,
}

/// An element as contracts see it: its name and its pieces of text.
pub type ElementView = (Seq<char>, Seq<Seq<char>>);

/// The elements that a vector of elements stands for.
pub open spec fn element_views(elements: Seq<PageElement>) -> Seq<ElementView> {
    Seq::new(elements.len(), |i: int| (elements[i].name@, texts(elements[i].pieces@)))
}

/// The elements of the HTML document `html` that the CSS selector
/// `selector` matches, in document order, as the `scraper` crate parses the
/// one and the other: each element with its name and the text nodes below
/// it. There are none where `selector` is no selector.
pub uninterp spec fn selected_elements(html: Seq<char>, selector: Seq<char>) -> Seq<ElementView>;

/// The inner markup of the elements of `html` that `selector` matches, in
/// document order, as the `scraper` crate writes it.
pub uninterp spec fn selected_markup(html: Seq<char>, selector: Seq<char>) -> Seq<Seq<char>>;

/// The attributes `first` and `second` of the elements of `html` that
/// `selector` matches, in document order.
pub uninterp spec fn selected_attributes(
    html: Seq<char>,
    selector: Seq<char>,
    first: Seq<char>,
    second: Seq<char>,
) -> Seq<(Option<Seq<char>>, Option<Seq<char>>)>;

/// Two optional strings as contracts see them.
pub open spec fn attribute_views(pairs: Seq<(Option<String>, Option<String>)>) -> Seq<
    (Option<Seq<char>>, Option<Seq<char>>),
> {
    Seq::new(
        pairs.len(),
        |i: int|
            (
                match pairs[i].0 {
                    Some(s) => Some(s@),
                    None => None,
                },
                match pairs[i].1 {
                    Some(s) => Some(s@),
                    None => None,
                },
            ),
    )
}

/// Selects elements of an HTML document.
///
/// Trusted: wraps `scraper::Html::parse_document`, `scraper::Selector::parse`
/// and `Html::select`, and copies the name (`Element::name`) and the text
/// nodes (`ElementRef::text`) of each match. Parsing and matching depend on
/// the two strings alone; the result is what `selected_elements` names.
#[verifier::external_body]
pub(crate) fn select_elements(html: &str, selector: &str) -> (elements: Vec<PageElement>)
    ensures
        element_views(elements@) == selected_elements(html@, selector@),
{
    let document = scraper::Html::parse_document(html);
    match scraper::Selector::parse(selector) {
        Ok(parsed) => document.select(&parsed).map(
            |e| PageElement {
                name: e.value().name().to_string(),
                pieces: e.text().map(|t| t.to_string()).collect(),
            },
        ).collect(),
        Err(_) => Vec::new(),
    }
}

/// The inner markup of the elements that a selector matches.
///
/// Trusted: wraps `scraper::Html::parse_document`, `scraper::Selector::parse`,
/// `Html::select` and `ElementRef::inner_html`; the result is what
/// `selected_markup` names.
#[verifier::external_body]
pub(crate) fn select_markup(html: &str, selector: &str) -> (markup: Vec<String>)
    ensures
        texts(markup@) == selected_markup(html@, selector@),
{
    let document = scraper::Html::parse_document(html);
    match scraper::Selector::parse(selector) {
        Ok(parsed) => document.select(&parsed).map(|e| e.inner_html()).collect(),
        Err(_) => Vec::new(),
    }
}

/// Two attributes of the elements that a selector matches.
///
/// Trusted: wraps `scraper::Html::parse_document`, `scraper::Selector::parse`,
/// `Html::select` and `Element::attr`; the result is what
/// `selected_attributes` names.
#[verifier::external_body]
pub(crate) fn select_attributes(html: &str, selector: &str, first: &str, second: &str) -> (pairs:
    Vec<(Option<String>, Option<String>)>)
    ensures
        attribute_views(pairs@) == selected_attributes(html@, selector@, first@, second@),
{
    let document = scraper::Html::parse_document(html);
    match scraper::Selector::parse(selector) {
        Ok(parsed) => document.select(&parsed).map(
            |e| (e.value().attr(first).map(|v| v.to_string()), e.value().attr(second).map(|v| v.to_string())),
        ).collect(),
        Err(_) => Vec::new(),
    }
}

/// The `meta` elements that have both a name and a content.
pub open spec fn named_meta(pairs: Seq<(Option<Seq<char>>, Option<Seq<char>>)>) -> Entries
    decreases pairs.len(),
{
    if pairs.len() == 0 {
        Seq::empty()
    } else {
        match pairs.last() {
            (Some(name), Some(content)) => named_meta(pairs.drop_last()).push((name, content)),
            _ => named_meta(pairs.drop_last()),
        }
    }
}

/// The text of an element: its pieces joined by spaces, without white space
/// around the whole.
pub open spec fn element_text(pieces: Seq<Seq<char>>) -> Seq<char> {
    trim(joined(pieces, " "@))
}

/// The non-empty texts of `elements`, in order. Where `skip_code` is set,
/// `script` and `style` elements are passed over.
pub open spec fn element_texts(elements: Seq<ElementView>, skip_code: bool) -> Seq<Seq<char>>
    decreases elements.len(),
{
    if elements.len() == 0 {
        Seq::empty()
    } else {
        let e = elements.last();
        let before = element_texts(elements.drop_last(), skip_code);
        let text = element_text(e.1);
        if skip_code && (e.0 == "script"@ || e.0 == "style"@) {
            before
        } else if text.len() == 0 {
            before
        } else {
            before.push(text)
        }
    }
}

/// The text of a page: the texts of its `body` elements, one per line; where
/// they yield nothing, the texts of all its elements but scripts and styles.
pub open spec fn page_text(body: Seq<ElementView>, all: Seq<ElementView>) -> Seq<char> {
    let from_body = element_texts(body, false);
    if from_body.len() > 0 {
        joined(from_body, "\n"@)
    } else {
        joined(element_texts(all, true), "\n"@)
    }
}

/// Collects the non-empty texts of `elements`.
fn collect_texts(elements: &Vec<PageElement>, skip_code: bool) -> (parts: Vec<String>)
    ensures
        texts(parts@) == element_texts(element_views(elements@), skip_code),
{
    let ghost all = element_views(elements@);
    let mut parts: Vec<String> = Vec::new();
    let mut i: usize = 0;
    assert(texts(parts@) =~= element_texts(all.take(0), skip_code));
    while i < elements.len()
        invariant
            i <= elements.len(),
            all == element_views(elements@),
            texts(parts@) == element_texts(all.take(i as int), skip_code),
        decreases elements.len() - i,
    {
        let ghost before = texts(parts@);
        proof {
            let next = all.take(i + 1);
            assert(next.drop_last() == all.take(i as int));
            assert(next.last() == all[i as int]);
        }
        let e = &elements[i];
        let is_code = same_text(e.name.as_str(), "script") || same_text(e.name.as_str(), "style");
        if !(skip_code && is_code) {
            let joined_text = join_all(&e.pieces, " ");
            let text = trimmed(joined_text.as_str());
            if !text.as_str().is_empty() {
                let ghost t = text@;
                parts.push(text);
                assert(texts(parts@) =~= before.push(t));
            }
        }
        i += 1;
    }
    assert(all.take(all.len() as int) == all);
    parts
}

impl UrlHandler {
    /// The text of a page, from its `body` elements and, where they yield
    /// nothing, from all its elements.
    pub fn text_of_page(&self, body: &Vec<PageElement>, all: &Vec<PageElement>) -> (text: String)
        ensures
            text@ == page_text(element_views(body@), element_views(all@)),
    {
        let from_body = collect_texts(body, false);
        if from_body.len() > 0 {
            join_all(&from_body, "\n")
        } else {
            let from_all = collect_texts(all, true);
            join_all(&from_all, "\n")
        }
    }

    /// The text of the page whose markup is `html`.
    pub fn extract_text_from_html(&self, html: &str) -> (text: String)
        ensures
            text@ == page_text(selected_elements(html@, "body"@), selected_elements(html@, "*"@)),
    {
        let body = select_elements(html, "body");
        let from_body = collect_texts(&body, false);
        if from_body.len() > 0 {
            join_all(&from_body, "\n")
        } else {
            let all = select_elements(html, "*");
            let from_all = collect_texts(&all, true);
            join_all(&from_all, "\n")
        }
    }

    /// What the head of the page whose markup is `html` says: the markup of
    /// its first `title` element, and its `meta` elements with a name and a
    /// content.
    pub fn head_of(&self, html: &str) -> (head: PageHead)
        ensures
            (match head.title {
                Some(t) => Some(t@),
                None => None,
            }) == (if selected_markup(html@, "title"@).len() > 0 {
                Some(selected_markup(html@, "title"@)[0])
            } else {
                None
            }),
            meta_views(head.meta@) == named_meta(
                selected_attributes(html@, "meta"@, "name"@, "content"@),
            ),
    {
        let titles = select_markup(html, "title");
        let title = if titles.len() > 0 {
            assert(texts(titles@)[0] == titles@[0]@);
            Some(titles[0].clone())
        } else {
            None
        };
        let pairs = select_attributes(html, "meta", "name", "content");
        let ghost all = attribute_views(pairs@);
        let mut meta: Vec<(String, String)> = Vec::new();
        let mut i: usize = 0;
        assert(meta_views(meta@) =~= named_meta(all.take(0)));
        while i < pairs.len()
            invariant
                i <= pairs.len(),
                all == attribute_views(pairs@),
                meta_views(meta@) == named_meta(all.take(i as int)),
            decreases pairs.len() - i,
        {
            let ghost before = meta_views(meta@);
            proof {
                let next = all.take(i + 1);
                assert(next.drop_last() == all.take(i as int));
                assert(next.last() == all[i as int]);
            }
            match (&pairs[i].0, &pairs[i].1) {
                (Some(name), Some(content)) => {
                    meta.push((name.clone(), content.clone()));
                    assert(meta_views(meta@) =~= before.push((name@, content@)));
                },
                _ => {},
            }
            i += 1;
        }
        assert(all.take(all.len() as int) == all);
        PageHead { title, meta }
    }
}

/// What a file of text holds once its bytes are decoded.
#[derive(Debug)]
pub struct DecodedText {
    pub text: String,
    /// Whether some bytes were malformed and replaced.
    pub had_errors: bool,
}

/// The text that the bytes of a file stand for, as `encoding_rs` decodes
/// them: by the byte order mark where there is one, as UTF-8 where there is
/// none, malformed sequences replaced; and whether any were.
pub uninterp spec fn decoded(bytes: Seq<u8>) -> (Seq<char>, bool);

/// Decodes the bytes of a file.
///
/// Trusted: wraps `encoding_rs::Encoding::decode` on `UTF_8`, which sniffs
/// the byte order mark itself. The result depends on the bytes alone and is
/// what `decoded` names. The call panics where the size of its buffer, at
/// most three times the number of bytes and three more, does not fit in
/// `usize`; the `requires` leaves those inputs out.
#[verifier::external_body]
pub(crate) fn decode_bytes(bytes: &[u8]) -> (r: (String, bool))
    requires
        3 * bytes@.len() + 3 <= usize::MAX,
    ensures
        (r.0@, r.1) == decoded(bytes@),
{
    let (text, _, had_errors) = encoding_rs::UTF_8.decode(bytes);
    (text.into_owned(), had_errors)
}

impl TextHandler {
    /// Decodes the bytes of a text file. Nothing is decoded where three
    /// times their number and three more is beyond what the machine counts
    /// to.
    pub fn decode(&self, bytes: &[u8]) -> (r: Option<DecodedText>)
        ensures
            match r {
                Some(d) => 3 * bytes@.len() + 3 <= usize::MAX && (d.text@, d.had_errors)
                    == decoded(bytes@),
                None => 3 * bytes@.len() + 3 > usize::MAX,
            },
    {
        if bytes.len() > (usize::MAX - 3) / 3 {
            None
        } else {
            let (text, had_errors) = decode_bytes(bytes);
            Some(DecodedText { text, had_errors })
        }
    }
}

/// Whether `extension` can be what the operating system reads off `source`
/// as the extension of its file: no extension at all, or a string that
/// stands behind a dot in `source`.
pub open spec fn may_be_extension(source: Seq<char>, extension: Option<Seq<char>>) -> bool {
    match extension {
        Some(e) => has_substring(source, "."@ + e),
        None => true,
    }
}

/// The extension of the file that `source` names.
///
/// Trusted: wraps `std::path::Path::extension` followed by `OsStr::to_str`.
/// What counts as the last component of a path differs from one operating
/// system to another, so the extension is given no name. On every system it
/// is the portion of the file name after its final dot, and the file name
/// is a piece of the path: that much is claimed.
#[verifier::external_body]
pub(crate) fn path_extension(source: &str) -> (extension: Option<String>)
    ensures
        extension matches Some(e) ==> has_substring(source@, "."@ + e@),
{
    std::path::Path::new(source).extension().and_then(|e| e.to_str()).map(|e| e.to_string())
}

/// The handler for a file with the given extension: `pdf` is read as PDF,
/// `url` is fetched, anything else is read as plain text, and so is a file
/// without extension.
pub open spec fn handler_for_extension(extension: Option<Seq<char>>) -> HandlerKind {
    match extension {
        Some(e) => if e == "pdf"@ {
            HandlerKind::Pdf
        } else if e == "url"@ {
            HandlerKind::Url
        } else {
            HandlerKind::Text
        },
        None => HandlerKind::Text,
    }
}

/// Chooses how documents are read.
#[derive(Debug)]
pub struct DocumentProcessor {
    handlers: Vec<(String, HandlerKind)>,
}

/// The handlers that a processor knows, by the name under which it looks
/// them up.
pub open spec fn registry() -> Seq<(Seq<char>, HandlerKind)> {
    seq![
        ("pdf"@, HandlerKind::Pdf),
        ("txt"@, HandlerKind::Text),
        ("text"@, HandlerKind::Text),
        ("md"@, HandlerKind::Text),
        ("url"@, HandlerKind::Url),
    ]
}

/// The first handler of `handlers` at or after `from` that is registered
/// under `name`.
pub open spec fn registered_from(handlers: Seq<(Seq<char>, HandlerKind)>, name: Seq<char>, from: int) -> Option<
    HandlerKind,
>
    decreases handlers.len() - from,
{
    if from < 0 || from >= handlers.len() {
        None
    } else if handlers[from].0 == name {
        Some(handlers[from].1)
    } else {
        registered_from(handlers, name, from + 1)
    }
}

/// The handler for a file with the given extension, by the registry: the
/// one registered under the extension, else the one registered under `txt`.
pub open spec fn chosen_for_extension(extension: Option<Seq<char>>) -> HandlerKind {
    let name = match extension {
        Some(e) => e,
        None => "txt"@,
    };
    match registered_from(registry(), name, 0) {
        Some(kind) => kind,
        None => HandlerKind::Text,
    }
}

/// Looking a handler up in the registry chooses as `handler_for_extension`
/// says.
pub proof fn lemma_registry_choice(extension: Option<Seq<char>>)
    ensures
        chosen_for_extension(extension) == handler_for_extension(extension),
{
    reveal_with_fuel(registered_from, 6);
    reveal_strlit("pdf");
    reveal_strlit("txt");
    reveal_strlit("text");
    reveal_strlit("md");
    reveal_strlit("url");
    assert("pdf"@[0] != "url"@[0]);
    assert("pdf"@[0] != "txt"@[0]);
    assert("pdf"@[0] != "md"@[0]);
    assert("url"@[0] != "txt"@[0]);
    assert("url"@[0] != "md"@[0]);
    assert("txt"@.len() != "text"@.len());
    assert("pdf"@.len() != "text"@.len());
    assert("url"@.len() != "text"@.len());
}

impl DocumentProcessor {
    #[verifier::type_invariant]
    spec fn knows_the_registry(self) -> bool {
        self.handlers() == registry()
    }

    /// The handlers as contracts see them.
    pub closed spec fn handlers(&self) -> Seq<(Seq<char>, HandlerKind)> {
        Seq::new(self.handlers@.len(), |i: int| (self.handlers@[i].0@, self.handlers@[i].1))
    }

    /// A processor that knows the handlers for `pdf`, `txt`, `text`, `md`
    /// and `url`.
    pub fn new() -> (processor: Self)
        ensures
            processor.handlers() == registry(),
    {
        let mut handlers: Vec<(String, HandlerKind)> = Vec::new();
        handlers.push(("pdf".to_string(), HandlerKind::Pdf));
        handlers.push(("txt".to_string(), HandlerKind::Text));
        handlers.push(("text".to_string(), HandlerKind::Text));
        handlers.push(("md".to_string(), HandlerKind::Text));
        handlers.push(("url".to_string(), HandlerKind::Url));
        assert(Seq::new(handlers@.len(), |i: int| (handlers@[i].0@, handlers@[i].1)) =~= registry());
        DocumentProcessor { handlers }
    }

    /// Looks a handler up by name.
    fn registered(&self, name: &str) -> (kind: Option<HandlerKind>)
        ensures
            kind == registered_from(self.handlers(), name@, 0),
    {
        let mut i: usize = 0;
        while i < self.handlers.len()
            invariant
                i <= self.handlers.len(),
                registered_from(self.handlers(), name@, 0) == registered_from(
                    self.handlers(),
                    name@,
                    i as int,
                ),
            decreases self.handlers.len() - i,
        {
            assert(self.handlers()[i as int] == (self.handlers@[i as int].0@, self.handlers@[i as int].1));
            if same_text(self.handlers[i].0.as_str(), name) {
                return Some(self.handlers[i].1);
            }
            i += 1;
        }
        None
    }

    /// Chooses the handler for a file by its extension.
    pub fn handler_for_extension(&self, extension: Option<&str>) -> (kind: HandlerKind)
        ensures
            kind == handler_for_extension(
                match extension {
                    Some(e) => Some(e@),
                    None => None,
                },
            ),
    {
        proof {
            use_type_invariant(self);
            lemma_registry_choice(
                match extension {
                    Some(e) => Some(e@),
                    None => None,
                },
            );
        }
        let name = match extension {
            Some(e) => e,
            None => "txt",
        };
        match self.registered(name) {
            Some(kind) => kind,
            None => match self.registered("txt") {
                Some(kind) => {
                    proof {
                        reveal_with_fuel(registered_from, 6);
                        reveal_strlit("pdf");
                        reveal_strlit("txt");
                        assert("pdf"@[0] != "txt"@[0]);
                    }
                    kind
                },
                None => HandlerKind::Text,
            },
        }
    }

    /// Chooses the handler for `source`: the web for an absolute URI, and
    /// for anything else the file handler for the extension that the
    /// operating system reads off the path. Whatever the system reads, it
    /// is no extension at all or stands behind a dot in `source`, so a file
    /// is read as PDF only where `.pdf` occurs in its path.
    pub fn get_handler(&self, source: &str) -> (kind: HandlerKind)
        ensures
            is_absolute_uri(source@) ==> kind == HandlerKind::Url,
            !is_absolute_uri(source@) ==> exists|extension: Option<Seq<char>>|
                #[trigger] may_be_extension(source@, extension) && kind == handler_for_extension(
                    extension,
                ),
    {
        if is_absolute(source) {
            HandlerKind::Url
        } else {
            match path_extension(source) {
                Some(e) => {
                    let kind = self.handler_for_extension(Some(e.as_str()));
                    assert(may_be_extension(source@, Some(e@)));
                    kind
                },
                None => {
                    let kind = self.handler_for_extension(None);
                    assert(may_be_extension(source@, None::<Seq<char>>));
                    kind
                },
            }
        }
    }
}

} // verus!

//! Selector resolution: compiling a store's selector text, independently of any page.
use vstd::prelude::*;
use vstd::string::*;

verus! {

#[verifier::external_type_specification]
#[verifier::external_body]
pub struct ExSelector(scraper::Selector);

/// Whether scraper accepts `text` as a selector group.
pub uninterp spec fn selector_accepted(text: Seq<char>) -> bool;

/// Relies on scraper::Selector::parse: whether a selector group parses
/// depends on its text alone, and an empty text holds no compound selector,
/// so it is refused.
#[verifier::external_body]
fn parse_selector(text: &str) -> (r: Option<scraper::Selector>)
    ensures
        r is Some == selector_accepted(text@),
        text@.len() == 0 ==> r is None,
{
    scraper::Selector::parse(text).ok()
}

/// Scanning `s` left to right: the brackets still open, the quote still open,
/// whether a closing bracket has failed to match, and whether the last
/// character was an unescaped backslash, which makes the next one literal.
pub open spec fn bracket_scan(s: Seq<char>) -> (Seq<char>, Option<char>, bool, bool)
    decreases s.len(),
{
    if s.len() == 0 {
        (Seq::empty(), None, false, false)
    } else {
        let (open, quote, broken, escaped) = bracket_scan(s.drop_last());
        let c = s.last();
        if broken {
            (open, quote, broken, escaped)
        } else if escaped {
            (open, quote, false, false)
        } else if c == '\\' {
            (open, quote, false, true)
        } else if quote is Some {
            if quote == Some(c) {
                (open, None, false, false)
            } else {
                (open, quote, false, false)
            }
        } else if c == '"' || c == '\'' {
            (open, Some(c), false, false)
        } else if c == '[' || c == '(' {
            (open.push(c), None, false, false)
        } else if c == ']' || c == ')' {
            if open.len() > 0 && open.last() == (if c == ']' { '[' } else { '(' }) {
                (open.drop_last(), None, false, false)
            } else {
                (open, None, true, false)
            }
        } else {
            (open, None, false, false)
        }
    }
}

/// Every `[` and `(` of `s` outside quotes and not escaped is closed, in
/// order, by its own kind of bracket, and no quote is left open.
pub open spec fn brackets_balanced(s: Seq<char>) -> bool {
    let (open, quote, broken, escaped) = bracket_scan(s);
    !broken && open.len() == 0 && quote is None
}

fn check_brackets(text: &str) -> (r: bool)
    ensures
        r == brackets_balanced(text@),
{
    let n = text.unicode_len();
    let mut open: Vec<char> = Vec::new();
    let mut quote: Option<char> = None;
    let mut broken = false;
    let mut escaped = false;
    let mut i: usize = 0;
    while i < n
        invariant
            i <= n,
            n == text@.len(),
            bracket_scan(text@.subrange(0, i as int)) == (open@, quote, broken, escaped),
        decreases n - i,
    {
        let c = text.get_char(i);
        assert(text@.subrange(0, i + 1).drop_last() =~= text@.subrange(0, i as int));
        if broken {
        } else if escaped {
            escaped = false;
        } else if c == '\\' {
            escaped = true;
        } else if quote.is_some() {
            if quote == Some(c) {
                quote = None;
            }
        } else if c == '"' || c == '\'' {
            quote = Some(c);
        } else if c == '[' || c == '(' {
            open.push(c);
        } else if c == ']' || c == ')' {
            let want = if c == ']' { '[' } else { '(' };
            if open.len() > 0 && open[open.len() - 1] == want {
                open.pop();
            } else {
                broken = true;
            }
        }
        i = i + 1;
    }
    assert(text@.subrange(0, n as int) =~= text@);
    !broken && open.len() == 0 && quote.is_none()
}

/// The inner HTML of the first element that the selector `selector` picks in
/// the page `page`, as scraper parses and walks it.
pub uninterp spec fn first_inner_html_of(page: Seq<char>, selector: Seq<char>) -> Option<Seq<char>>;

/// For the first element that the selector `selector` picks in the page
/// `page`, as scraper parses and walks it, its attribute `name` if it has one.
pub uninterp spec fn first_attribute_of(page: Seq<char>, selector: Seq<char>, name: Seq<char>) -> Option<
    Option<Seq<char>>,
>;

/// A compiled selector, together with the text it was compiled from.
pub struct CompiledSelector {
    text: String,
    selector: scraper::Selector,
}

impl CompiledSelector {
    /// The text this selector was compiled from.
    pub closed spec fn source(self) -> Seq<char> {
        self.text@
    }

    /// The text this selector was compiled from.
    pub fn text(&self) -> (r: &str)
        ensures
            r@ == self.source(),
    {
        self.text.as_str()
    }

    /// Relies on scraper's Html::parse_document, Html::select and
    /// ElementRef::inner_html, on the selector compiled from `source()`: the
    /// inner HTML of the first element it picks, which depends on the page
    /// text and the selector text alone.
    #[verifier::external_body]
    pub(crate) fn first_inner_html(&self, page: &str) -> (r: Option<String>)
        ensures
            r matches Some(v) ==> first_inner_html_of(page@, self.source()) == Some(v@),
            r is None ==> first_inner_html_of(page@, self.source()) is None,
    {
        let doc = scraper::Html::parse_document(page);
        match doc.select(&self.selector).next() {
            Some(e) => Some(e.inner_html()),
            None => None,
        }
    }

    /// Relies on scraper's Html::parse_document, Html::select and
    /// Element::attr, on the selector compiled from `source()`: the attribute
    /// `name` of the first element it picks, which depends on the page text,
    /// the selector text and the name alone.
    #[verifier::external_body]
    pub(crate) fn first_attribute(&self, page: &str, name: &str) -> (r: Option<Option<String>>)
        ensures
            first_attribute_of(page@, self.source(), name@) == match r {
                None => None,
                Some(None) => Some(None),
                Some(Some(v)) => Some(Some(v@)),
            },
    {
        let doc = scraper::Html::parse_document(page);
        match doc.select(&self.selector).next() {
            Some(e) => Some(e.value().attr(name).map(|v| v.to_string())),
            None => None,
        }
    }
}

/// A selector that does not compile, with a message naming it.
#[derive(Clone, Debug)]
pub struct SelectorParseError {
    pub details: String,
}

/// The message of a `SelectorParseError` for the selector text `s`.
pub open spec fn selector_error_message(s: Seq<char>) -> Seq<char> {
    "Error parsing selector \""@ + s + "\""@
}

impl SelectorParseError {
    /// An error carrying the message `msg`.
    pub fn new(msg: &str) -> (r: SelectorParseError)
        ensures
            r.details@ == msg@,
    {
        SelectorParseError { details: String::from_str(msg) }
    }

    /// The message this error carries.
    pub fn description(&self) -> (r: &str)
        ensures
            r@ == self.details@,
    {
        self.details.as_str()
    }
}

/// Compiles `text` into a selector, or fails with an error naming it.
/// An empty text, or one whose brackets do not balance, always fails.
pub fn compile_selector(text: &str) -> (r: Result<CompiledSelector, SelectorParseError>)
    ensures
        r matches Ok(c) ==> c.source() == text@,
        r is Ok <==> (brackets_balanced(text@) && selector_accepted(text@)),
        !brackets_balanced(text@) ==> r is Err,
        r matches Err(e) ==> e.details@ == selector_error_message(text@),
        text@.len() == 0 ==> r is Err,
{
    let parsed = if check_brackets(text) {
        parse_selector(text)
    } else {
        None
    };
    match parsed {
        Some(s) => Ok(CompiledSelector { text: String::from_str(text), selector: s }),
        None => {
            let mut msg = String::from_str("Error parsing selector \"");
            msg.append(text);
            msg.append("\"");
            Err(SelectorParseError::new(msg.as_str()))
        },
    }
}

} // verus!

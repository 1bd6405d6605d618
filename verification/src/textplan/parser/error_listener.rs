//! Collecting the errors found while parsing a textplan.

use vstd::prelude::*;

use crate::textplan::common::text_format::{push_signed_decimal, signed_decimal};
use crate::textplan::common::text_location::{text_location_text, TextLocation};
use crate::textplan::common::text_ops::texts_view;

verus! {

/// Represents an error encountered during parsing.
#[derive(Debug, Clone, PartialEq, Eq)]
pub struct ParseError {
    /// The message describing the error.
    message: String,
    /// The location where the error occurred.
    location: TextLocation,
}

/// The mathematical value of a parse error: its message and its location.
pub ghost struct ParseErrorView {
    pub message: Seq<char>,
    pub location: TextLocation,
}

impl View for ParseError {
    type V = ParseErrorView;

    closed spec fn view(&self) -> ParseErrorView {
        ParseErrorView { message: self.message@, location: self.location }
    }
}

/// The display text of a parse error: its message, ` at ` and its location.
pub open spec fn parse_error_text(e: ParseErrorView) -> Seq<char> {
    e.message + " at "@ + text_location_text(e.location.spec_position(), e.location.spec_length())
}

impl ParseError {
    /// Creates a new parse error.
    pub fn new(message: String, location: TextLocation) -> (r: Self)
        ensures
            r@ == (ParseErrorView { message: message@, location }),
    {
        Self { message, location }
    }

    /// Returns the message describing the error.
    pub fn message(&self) -> (r: &str)
        ensures
            r@ == self@.message,
    {
        self.message.as_str()
    }

    /// Returns the location where the error occurred.
    pub fn location(&self) -> (r: TextLocation)
        ensures
            r == self@.location,
    {
        self.location
    }

    /// The display text: the message, ` at ` and the location.
    pub fn to_string(&self) -> (r: String)
        ensures
            r@ == parse_error_text(self@),
    {
        let mut r = self.message.clone();
        r.append(" at ");
        let l = self.location.to_string();
        r.append(l.as_str());
        proof {
            reveal_strlit(" at ");
        }
        r
    }
}

/// Listens for errors during parsing.
pub struct ErrorListener {
    /// The errors encountered during parsing.
    errors: Vec<ParseError>,
}

impl View for ErrorListener {
    type V = Seq<ParseErrorView>;

    closed spec fn view(&self) -> Seq<ParseErrorView> {
        self.errors@.map_values(|e: ParseError| e@)
    }
}

impl Default for ErrorListener {
    /// A listener that has heard no error.
    fn default() -> (r: Self)
        ensures
            r@ == Seq::<ParseErrorView>::empty(),
    {
        Self::new()
    }
}

impl ErrorListener {
    /// Creates a new error listener.
    pub fn new() -> (r: Self)
        ensures
            r@ == Seq::<ParseErrorView>::empty(),
    {
        let r = Self { errors: Vec::new() };
        assert(r@ =~= Seq::<ParseErrorView>::empty());
        r
    }

    /// Adds an error to the listener.
    pub fn add_error(&mut self, message: String, location: TextLocation)
        ensures
            final(self)@ == old(self)@.push(ParseErrorView { message: message@, location }),
    {
        self.errors.push(ParseError::new(message, location));
        assert(self@ =~= old(self)@.push(ParseErrorView { message: message@, location }));
    }

    /// Returns true if any errors were encountered during parsing.
    pub fn has_errors(&self) -> (r: bool)
        ensures
            r == (self@.len() > 0),
    {
        self.errors.len() > 0
    }

    /// Formats all errors as strings.
    pub fn format_errors(&self) -> (r: Vec<String>)
        ensures
            texts_view(r@) == self@.map_values(|e: ParseErrorView| parse_error_text(e)),
    {
        let mut r: Vec<String> = Vec::new();
        let mut i: usize = 0;
        while i < self.errors.len()
            invariant
                i <= self.errors.len(),
                self@.len() == self.errors.len(),
                texts_view(r@) == self@.take(i as int).map_values(
                    |e: ParseErrorView| parse_error_text(e),
                ),
            decreases self.errors.len() - i,
        {
            let text = self.errors[i].to_string();
            assert(self@[i as int] == self.errors@[i as int]@);
            let ghost before = r@;
            r.push(text);
            assert(texts_view(r@) =~= texts_view(before).push(parse_error_text(self@[i as int])));
            assert(self@.take(i + 1) =~= self@.take(i as int).push(self@[i as int]));
            assert(texts_view(r@) =~= self@.take(i + 1).map_values(
                |e: ParseErrorView| parse_error_text(e),
            ));
            i += 1;
        }
        assert(self@.take(self.errors.len() as int) =~= self@);
        r
    }
}

/// The message reported when the parser detects context sensitivity.
pub open spec fn context_sensitivity_text(start_index: int, stop_index: int, prediction: int) -> Seq<
    char,
> {
    "Context sensitivity detected at indices "@ + signed_decimal(start_index) + seq!['-']
        + signed_decimal(stop_index) + " with prediction "@ + signed_decimal(prediction)
}

/// Adapts the parser's error reports to an [`ErrorListener`].
pub struct AntlrErrorListener {
    error_listener: ErrorListener,
}

impl AntlrErrorListener {
    /// The errors reported so far.
    pub closed spec fn spec_errors(&self) -> Seq<ParseErrorView> {
        self.error_listener@
    }

    /// Creates a new ANTLR error listener wrapping our ErrorListener
    pub fn new(error_listener: ErrorListener) -> (r: Self)
        ensures
            r.spec_errors() == error_listener@,
    {
        Self { error_listener }
    }

    /// Reports a syntax error at a line and column.
    pub fn syntax_error(&mut self, line: isize, column: isize, msg: &str)
        ensures
            final(self).spec_errors() == old(self).spec_errors().push(
                ParseErrorView {
                    message: msg@,
                    location: TextLocation::spec_new(line as i32, column as i32),
                },
            ),
    {
        let location = TextLocation::new(line as i32, column as i32);
        self.error_listener.add_error(String::from_str(msg), location);
    }

    /// Reports that the parser had to look at more context to choose between alternatives.
    pub fn report_context_sensitivity(
        &mut self,
        start_index: isize,
        stop_index: isize,
        prediction: isize,
    )
        ensures
            final(self).spec_errors() == old(self).spec_errors().push(
                ParseErrorView {
                    message: context_sensitivity_text(
                        start_index as int,
                        stop_index as int,
                        prediction as int,
                    ),
                    location: TextLocation::spec_new(start_index as i32, stop_index as i32),
                },
            ),
    {
        let mut message = String::from_str("Context sensitivity detected at indices ");
        push_signed_decimal(&mut message, start_index as i64);
        message.append("-");
        push_signed_decimal(&mut message, stop_index as i64);
        message.append(" with prediction ");
        push_signed_decimal(&mut message, prediction as i64);
        proof {
            reveal_strlit("Context sensitivity detected at indices ");
            reveal_strlit("-");
            reveal_strlit(" with prediction ");
        }
        assert(message@ =~= context_sensitivity_text(
            start_index as int,
            stop_index as int,
            prediction as int,
        ));
        let location = TextLocation::new(start_index as i32, stop_index as i32);
        self.error_listener.add_error(message, location);
    }

    /// Gets the underlying ErrorListener
    pub fn get_error_listener(&self) -> (r: &ErrorListener)
        ensures
            r@ == self.spec_errors(),
    {
        &self.error_listener
    }
}

/// Creates a Box-wrapped version of AntlrErrorListener suitable for adding to ANTLR parsers
pub fn create_boxed_error_listener(error_listener: ErrorListener) -> (r: Box<AntlrErrorListener>)
    ensures
        r.spec_errors() == error_listener@,
{
    Box::new(AntlrErrorListener::new(error_listener))
}

} // verus!

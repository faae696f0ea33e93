//! A `multipart/form-data` request body builder. It only accumulates the body
//! text; sending it is the caller's concern.

use crate::util::random::{is_alphanumeric, random_alphanumeric};
use vstd::prelude::*;

verus! {

/// The line ending of the multipart format.
pub open spec fn crlf() -> Seq<char> {
    "\r\n"@
}

/// The charset named in form fields: the configured one, else `UTF-8`.
pub open spec fn charset_name(charset: Option<String>) -> Seq<char> {
    match charset {
        Some(c) => c@,
        None => "UTF-8"@,
    }
}

/// The delimiter line that opens a part.
pub open spec fn delimiter(boundary: Seq<char>) -> Seq<char> {
    "--"@ + boundary + crlf()
}

/// Accumulates a `multipart/form-data` request body.
#[derive(Debug, Clone)]
pub struct Multipart {
    pub boundary: String,
    pub charset: Option<String>,
    body: String,
}

impl Multipart {
    /// The body accumulated so far.
    pub closed spec fn text(&self) -> Seq<char> {
        self.body@
    }

    /// The boundary string.
    pub closed spec fn boundary_text(&self) -> Seq<char> {
        self.boundary@
    }

    /// The configured charset.
    pub closed spec fn charset_value(&self) -> Option<String> {
        self.charset
    }


    /// A builder with a random 32-character alphanumeric boundary and the given
    /// charset.
    pub fn new(charset: String) -> (r: Multipart)
        ensures
            r.charset_value() == Some(charset),
            r.boundary_text().len() == 32,
            forall|i: int| 0 <= i < 32 ==> is_alphanumeric(#[trigger] r.boundary_text()[i]),
            r.text() == Seq::<char>::empty(),
    {
        Multipart { boundary: random_alphanumeric(32), charset: Some(charset), body: String::new() }
    }

    /// Adds a simple form field.
    pub fn add_form_field(&mut self, name: &str, value: &str)
        ensures
            final(self).boundary_text() == old(self).boundary_text(),
            final(self).charset_value() == old(self).charset_value(),
            final(self).text() == old(self).text() + delimiter(old(self).boundary_text())
                + "Content-Disposition: form-data; name=\""@ + name@ + "\""@ + crlf()
                + "Content-Type: text/plain; charset="@ + charset_name(old(self).charset_value()) + crlf() + crlf()
                + value@ + crlf(),
    {
        let ghost start = self.body@;
        let charset = match &self.charset {
            Some(c) => c.clone(),
            None => "UTF-8".to_owned(),
        };
        self.body.append("--");
        self.body.append(self.boundary.as_str());
        self.body.append("\r\n");
        self.body.append("Content-Disposition: form-data; name=\"");
        self.body.append(name);
        self.body.append("\"");
        self.body.append("\r\n");
        self.body.append("Content-Type: text/plain; charset=");
        self.body.append(charset.as_str());
        self.body.append("\r\n");
        self.body.append("\r\n");
        self.body.append(value);
        self.body.append("\r\n");
        assert(self.body@ =~= start + delimiter(old(self).boundary_text()) + "Content-Disposition: form-data; name=\""@
            + name@ + "\""@ + crlf() + "Content-Type: text/plain; charset="@
            + charset_name(old(self).charset_value()) + crlf() + crlf() + value@ + crlf());
    }

    /// Adds a file part header; the caller appends the bytes and a trailing CRLF.
    pub fn add_file_part(&mut self, field_name: &str, file_name: Option<&str>)
        ensures
            final(self).boundary_text() == old(self).boundary_text(),
            final(self).charset_value() == old(self).charset_value(),
            final(self).text() == old(self).text() + delimiter(old(self).boundary_text()) + (match file_name {
                Some(f) => "Content-Disposition: file; filename=\""@ + f@ + "\""@ + crlf(),
                None => "Content-Disposition: file; name=\""@ + field_name@ + "\";"@ + crlf(),
            }) + "Content-Type: application/octet-stream"@ + crlf()
                + "Content-Transfer-Encoding: binary"@ + crlf() + crlf(),
    {
        let ghost start = self.body@;
        self.body.append("--");
        self.body.append(self.boundary.as_str());
        self.body.append("\r\n");
        let ghost mid = self.body@;
        match file_name {
            Some(fname) => {
                self.body.append("Content-Disposition: file; filename=\"");
                self.body.append(fname);
                self.body.append("\"");
                self.body.append("\r\n");
            },
            None => {
                self.body.append("Content-Disposition: file; name=\"");
                self.body.append(field_name);
                self.body.append("\";");
                self.body.append("\r\n");
            },
        }
        let ghost disposition = match file_name {
            Some(f) => "Content-Disposition: file; filename=\""@ + f@ + "\""@ + crlf(),
            None => "Content-Disposition: file; name=\""@ + field_name@ + "\";"@ + crlf(),
        };
        assert(self.body@ =~= mid + disposition);
        self.body.append("Content-Type: application/octet-stream");
        self.body.append("\r\n");
        self.body.append("Content-Transfer-Encoding: binary");
        self.body.append("\r\n");
        self.body.append("\r\n");
        assert(self.body@ =~= start + delimiter(old(self).boundary_text()) + disposition
            + "Content-Type: application/octet-stream"@ + crlf()
            + "Content-Transfer-Encoding: binary"@ + crlf() + crlf());
    }

    /// Adds a raw header line `name: value`.
    pub fn add_header_field(&mut self, name: &str, value: &str)
        ensures
            final(self).boundary_text() == old(self).boundary_text(),
            final(self).charset_value() == old(self).charset_value(),
            final(self).text() == old(self).text() + name@ + ": "@ + value@ + crlf(),
    {
        let ghost start = self.body@;
        self.body.append(name);
        self.body.append(": ");
        self.body.append(value);
        self.body.append("\r\n");
        assert(self.body@ =~= start + name@ + ": "@ + value@ + crlf());
    }

    /// Appends raw text to the body.
    pub fn append_raw(&mut self, text: &str)
        ensures
            final(self).boundary_text() == old(self).boundary_text(),
            final(self).charset_value() == old(self).charset_value(),
            final(self).text() == old(self).text() + text@,
    {
        self.body.append(text);
    }

    /// Closes the body with the final boundary and returns it.
    pub fn finish(self) -> (r: String)
        ensures
            r@ == self.text() + "--"@ + self.boundary_text() + "--"@ + crlf(),
    {
        let mut body = self.body;
        body.append("--");
        body.append(self.boundary.as_str());
        body.append("--");
        body.append("\r\n");
        assert(body@ =~= self.text() + "--"@ + self.boundary@ + "--"@ + crlf());
        body
    }

    /// The body accumulated so far (without the closing boundary).
    pub fn body(&self) -> (r: &str)
        ensures
            r@ == self.text(),
    {
        self.body.as_str()
    }
}

impl Default for Multipart {
    /// A builder with a random boundary, no charset and an empty body.
    fn default() -> (r: Multipart)
        ensures
            r.charset_value() is None,
            r.boundary_text().len() == 32,
            r.text() == Seq::<char>::empty(),
    {
        Multipart { boundary: random_alphanumeric(32), charset: None, body: String::new() }
    }
}

} // verus!

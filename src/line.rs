use vstd::prelude::*;
use vstd::string::*;

verus! {

/// One output line of the supervised command, after classification.
#[derive(Clone, Debug)]
pub struct Line {
    pub prefix: Option<String>,
    pub message: String,
    pub has_error: bool,
}

/// The separator written between a prefix and its message.
pub open spec fn prefix_separator() -> Seq<char> {
    seq![':', ' ']
}

impl Line {
    /// The text of the line as it is exported: `prefix: message`, or the bare
    /// message when there is no prefix.
    pub open spec fn rendered(self) -> Seq<char> {
        match self.prefix {
            Some(p) => p@ + prefix_separator() + self.message@,
            None => self.message@,
        }
    }

    pub fn with_prefix(prefix: String, message: String, has_error: bool) -> (r: Line)
        ensures
            r == (Line { prefix: Some(prefix), message, has_error }),
    {
        Line { prefix: Some(prefix), message, has_error }
    }

    pub fn without_prefix(message: String) -> (r: Line)
        ensures
            r == (Line { prefix: None, message, has_error: false }),
    {
        Line { prefix: None, message, has_error: false }
    }

    /// A copy of the line.
    pub fn duplicate(&self) -> (r: Line)
        ensures
            r == *self,
    {
        let prefix = match &self.prefix {
            Some(p) => Some(p.clone()),
            None => None,
        };
        Line { prefix, message: self.message.clone(), has_error: self.has_error }
    }

    pub fn render(&self) -> (r: String)
        ensures
            r@ == self.rendered(),
    {
        let mut r = String::new();
        match &self.prefix {
            Some(p) => {
                r.append(p.as_str());
                proof {
                    reveal_strlit(": ");
                }
                r.append(": ");
            },
            None => {},
        }
        r.append(self.message.as_str());
        r
    }
}

} // verus!

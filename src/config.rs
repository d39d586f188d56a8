use vstd::prelude::*;
use vstd::string::*;

verus! {

/// Default prefix pattern: a token without white space, a colon, and the
/// rest of the line after it.
pub const DEFAULT_PREFIX: &'static str = r"^(?P<prefix>\S*?): (?P<rest>.*)";

/// What the program is asked to do: the prefix pattern and the words of the
/// command to run.
#[derive(Debug, Clone)]
pub struct Config {
    pub prefix: String,
    pub command: Vec<String>,
}

/// The words joined with one space between each two.
pub open spec fn joined_words(words: Seq<Seq<char>>) -> Seq<char>
    decreases words.len(),
{
    if words.len() == 0 {
        Seq::empty()
    } else if words.len() == 1 {
        words[0]
    } else {
        joined_words(words.drop_last()) + seq![' '] + words.last()
    }
}

impl Config {
    pub open spec fn command_words(&self) -> Seq<Seq<char>> {
        self.command@.map_values(|w: String| w@)
    }

    /// The command line handed to the shell: the words joined by spaces.
    pub fn command_line(&self) -> (r: String)
        ensures
            r@ == joined_words(self.command_words()),
    {
        let mut r = String::new();
        let mut i: usize = 0;
        while i < self.command.len()
            invariant
                i <= self.command@.len(),
                r@ == joined_words(self.command_words().subrange(0, i as int)),
            decreases self.command@.len() - i,
        {
            proof {
                reveal_strlit(" ");
                assert(self.command_words().subrange(0, i + 1).drop_last()
                    =~= self.command_words().subrange(0, i as int));
            }
            if i > 0 {
                r.append(" ");
            } else {
                assert(r@ + self.command[0]@ =~= self.command[0]@);
            }
            r.append(self.command[i].as_str());
            i = i + 1;
        }
        assert(self.command_words().subrange(0, i as int) =~= self.command_words());
        r
    }
}

} // verus!

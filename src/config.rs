use vstd::prelude::*;
use crate::render::Numbering;

verus! {

/// The name that stands for standard input in a list of files.
pub open spec fn stdin_name() -> Seq<char> {
    seq!['-']
}

/// Why a set of command-line settings was refused.
#[derive(Clone, Copy, Debug, PartialEq, Eq, Structural)]
pub enum UsageError {
    /// Numbering of every line and of non-blank lines were both asked for.
    ConflictingNumbering,
}

impl UsageError {
    /// A one-line description for the user.
    pub fn message(&self) -> (r: String)
        ensures
            r@ == "the argument '--number' cannot be used with '--number-nonblank'"@,
    {
        match self {
            UsageError::ConflictingNumbering => String::from_str(
                "the argument '--number' cannot be used with '--number-nonblank'",
            ),
        }
    }
}

/// What a run reads and how it numbers lines.
pub struct Config {
    files: Vec<String>,
    number_lines: bool,
    number_nonblank_lines: bool,
}

/// Where the contents behind one name of the file list come from.
pub enum InputSource {
    Stdin,
    File(String),
}

impl Config {
    #[verifier::type_invariant]
    spec fn inv(&self) -> bool {
        &&& self.files@.len() > 0
        &&& !(self.number_lines && self.number_nonblank_lines)
    }

    /// The names to read, in order.
    pub closed spec fn file_names(&self) -> Seq<String> {
        self.files@
    }

    pub closed spec fn spec_number_lines(&self) -> bool {
        self.number_lines
    }

    pub closed spec fn spec_number_nonblank_lines(&self) -> bool {
        self.number_nonblank_lines
    }

    /// The numbering that the two flags select.
    pub open spec fn spec_numbering(&self) -> Numbering {
        if self.spec_number_lines() {
            Numbering::NumberAll
        } else if self.spec_number_nonblank_lines() {
            Numbering::NumberNonBlank
        } else {
            Numbering::NoNumbering
        }
    }

    /// Builds the configuration from the file arguments and the two numbering
    /// flags. No file argument means standard input alone; the two flags
    /// together are refused.
    pub fn new(files: Vec<String>, number_lines: bool, number_nonblank_lines: bool) -> (r: Result<
        Config,
        UsageError,
    >)
        ensures
            r is Ok <==> !(number_lines && number_nonblank_lines),
            r is Err ==> r->Err_0 == UsageError::ConflictingNumbering,
            r is Ok ==> {
                let c = r->Ok_0;
                &&& c.spec_number_lines() == number_lines
                &&& c.spec_number_nonblank_lines() == number_nonblank_lines
                &&& files@.len() > 0 ==> c.file_names() == files@
                &&& files@.len() == 0 ==> c.file_names().len() == 1 && c.file_names()[0]@
                    == stdin_name()
            },
    {
        if number_lines && number_nonblank_lines {
            return Err(UsageError::ConflictingNumbering);
        }
        let files = if files.len() == 0 {
            proof {
                reveal_strlit("-");
            }
            let mut v: Vec<String> = Vec::new();
            v.push(String::from_str("-"));
            v
        } else {
            files
        };
        Ok(Config { files, number_lines, number_nonblank_lines })
    }

    pub fn files(&self) -> (r: &Vec<String>)
        ensures
            r@ == self.file_names(),
            r@.len() > 0,
    {
        proof {
            use_type_invariant(self);
        }
        &self.files
    }

    pub fn number_lines(&self) -> (r: bool)
        ensures
            r == self.spec_number_lines(),
    {
        self.number_lines
    }

    pub fn number_nonblank_lines(&self) -> (r: bool)
        ensures
            r == self.spec_number_nonblank_lines(),
            !(r && self.spec_number_lines()),
    {
        proof {
            use_type_invariant(self);
        }
        self.number_nonblank_lines
    }

    /// The numbering that the two flags select.
    pub fn numbering(&self) -> (r: Numbering)
        ensures
            r == self.spec_numbering(),
    {
        if self.number_lines {
            Numbering::NumberAll
        } else if self.number_nonblank_lines {
            Numbering::NumberNonBlank
        } else {
            Numbering::NoNumbering
        }
    }
}

/// Where to read `name` from: standard input for `-`, else the file of that
/// name.
pub fn input_source(name: &String) -> (r: InputSource)
    ensures
        name@ == stdin_name() <==> r is Stdin,
        r matches InputSource::File(p) ==> p@ == name@,
{
    proof {
        reveal_strlit("-");
    }
    let dash = String::from_str("-");
    assert(dash@ =~= stdin_name());
    if name.eq(&dash) {
        InputSource::Stdin
    } else {
        InputSource::File(name.clone())
    }
}

} // verus!

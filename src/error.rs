use vstd::prelude::*;
use vstd::string::*;

verus! {

#[verifier::external_type_specification]
#[verifier::external_body]
pub struct ExIoError(std::io::Error);

/// One argument that could not be opened: the argument as text, and why.
#[derive(Debug)]
pub struct FailReadFileError {
    pub inner: std::io::Error,
    pub filename: String,
}

impl FailReadFileError {
    /// A short description of this kind of failure.
    pub fn description(&self) -> (r: &'static str)
        ensures
            r@ == "failed to read file"@,
    {
        "failed to read file"
    }

    /// The underlying reason the argument could not be opened.
    pub fn cause(&self) -> (r: &std::io::Error)
        ensures
            *r == self.inner,
    {
        &self.inner
    }

    /// Two lines: the argument that could not be opened, and the cause as text.
    pub fn message(&self) -> (r: String)
        ensures
            is_message_of(*self, r@),
    {
        let cause = self.inner.to_string();
        let mut r = String::from_str("could not read file ");
        r.append(self.filename.as_str());
        r.append("\ncaused by: ");
        r.append(cause.as_str());
        r.append("\n");
        proof {
            assert(r@ =~= message_text(self.filename@, cause@));
        }
        r
    }
}

/// The text that tells of a failure to open `filename`, given its cause as text.
pub open spec fn message_text(filename: Seq<char>, cause: Seq<char>) -> Seq<char> {
    "could not read file "@ + filename + "\ncaused by: "@ + cause + "\n"@
}

/// `m` is the text of `f`: its argument and the text that its cause displays as.
pub open spec fn is_message_of(f: FailReadFileError, m: Seq<char>) -> bool {
    exists|c: String|
        to_string_from_display_ensures::<std::io::Error>(&f.inner, c) && m == message_text(
            f.filename@,
            c@,
        )
}

/// The messages `ms`, each followed by an empty line.
pub open spec fn joined(ms: Seq<Seq<char>>) -> Seq<char>
    decreases ms.len(),
{
    if ms.len() == 0 {
        Seq::empty()
    } else {
        joined(ms.drop_last()) + ms.last() + "\n"@
    }
}

/// Every argument that could not be opened, in the order the arguments came.
/// As returned by resolution it always holds at least one failure.
#[derive(Debug)]
pub struct InputError {
    pub badfiles: Vec<FailReadFileError>,
}

impl InputError {
    /// At least one failure is recorded.
    pub open spec fn wf(&self) -> bool {
        self.badfiles.len() > 0
    }

    /// How many arguments could not be opened.
    pub fn len(&self) -> (r: usize)
        ensures
            r == self.badfiles.len(),
    {
        self.badfiles.len()
    }

    /// A short description of this kind of failure.
    pub fn description(&self) -> (r: &'static str)
        ensures
            r@ == "failed to read one or more files"@,
    {
        "failed to read one or more files"
    }

    /// The first failure, if any is recorded.
    pub fn cause(&self) -> (r: Option<&FailReadFileError>)
        ensures
            self.badfiles.len() == 0 ==> r is None,
            self.badfiles.len() > 0 ==> (r matches Some(f) && *f == self.badfiles[0]),
    {
        if self.badfiles.len() == 0 {
            None
        } else {
            Some(&self.badfiles[0])
        }
    }

    /// The message of each failure in turn, each followed by an empty line.
    pub fn message(&self) -> (r: String)
        ensures
            exists|ms: Seq<Seq<char>>|
                {
                    &&& ms.len() == self.badfiles.len()
                    &&& forall|i: int|
                        0 <= i < ms.len() ==> is_message_of(self.badfiles[i], #[trigger] ms[i])
                    &&& r@ == joined(ms)
                },
    {
        let mut r = String::new();
        let ghost mut ms: Seq<Seq<char>> = Seq::empty();
        let mut i: usize = 0;
        while i < self.badfiles.len()
            invariant
                i <= self.badfiles.len(),
                ms.len() == i,
                forall|j: int| 0 <= j < i ==> is_message_of(self.badfiles[j], #[trigger] ms[j]),
                r@ == joined(ms),
            decreases self.badfiles.len() - i,
        {
            let m = self.badfiles[i].message();
            r.append(m.as_str());
            r.append("\n");
            proof {
                let before = ms;
                ms = ms.push(m@);
                assert(ms.drop_last() =~= before);
                assert(r@ =~= joined(ms));
            }
            i += 1;
        }
        r
    }
}

impl From<Vec<FailReadFileError>> for InputError {
    fn from(err: Vec<FailReadFileError>) -> (r: Self) {
        InputError { badfiles: err }
    }
}

impl vstd::std_specs::convert::FromSpecImpl<Vec<FailReadFileError>> for InputError {
    open spec fn obeys_from_spec() -> bool {
        true
    }

    open spec fn from_spec(err: Vec<FailReadFileError>) -> InputError {
        InputError { badfiles: err }
    }
}

} // verus!

//! The files that a resolution may read, as they were found: for each path
//! its text, or why it could not be read.

use vstd::prelude::*;

verus! {

/// What was found at a path: the text of the file, or the words of the
/// failure to read it.
pub type Reading = Result<String, String>;

/// The view of a reading.
pub open spec fn reading_view(reading: Reading) -> Result<Seq<char>, Seq<char>> {
    match reading {
        Ok(text) => Ok(text@),
        Err(message) => Err(message@),
    }
}

/// The readings that a list of pairs holds, a later pair replacing an earlier
/// one of the same path.
pub open spec fn readings_of(entries: Seq<(String, Reading)>) -> Map<
    Seq<char>,
    Result<Seq<char>, Seq<char>>,
>
    decreases entries.len(),
{
    if entries.len() == 0 {
        Map::empty()
    } else {
        readings_of(entries.drop_last()).insert(
            entries.last().0@,
            reading_view(entries.last().1),
        )
    }
}

/// Files by their paths. A path that is not among them has not been looked
/// at yet.
#[derive(Debug, Clone)]
pub struct Sources {
    entries: Vec<(String, Reading)>,
}

impl View for Sources {
    type V = Map<Seq<char>, Result<Seq<char>, Seq<char>>>;

    closed spec fn view(&self) -> Map<Seq<char>, Result<Seq<char>, Seq<char>>> {
        readings_of(self.entries@)
    }
}

impl Sources {
    /// No files.
    pub fn new() -> (s: Sources)
        ensures
            s@ == Map::<Seq<char>, Result<Seq<char>, Seq<char>>>::empty(),
    {
        Sources { entries: Vec::new() }
    }

    /// Records what was found at `path`, in place of what was recorded for it
    /// before.
    pub fn insert(&mut self, path: String, reading: Reading)
        ensures
            final(self)@ == old(self)@.insert(path@, reading_view(reading)),
    {
        let ghost before = self.entries@;
        self.entries.push((path, reading));
        proof {
            assert(self.entries@.drop_last() =~= before);
        }
    }

    /// What was found at `path`, if the path was looked at.
    pub fn get(&self, path: &str) -> (r: Option<&Reading>)
        ensures
            match r {
                Some(reading) => self@.contains_key(path@) && self@[path@] == reading_view(
                    *reading,
                ),
                None => !self@.contains_key(path@),
            },
    {
        let wanted = String::from_str(path);
        let mut i: usize = self.entries.len();
        proof {
            assert(self.entries@.take(i as int) =~= self.entries@);
        }
        while i > 0
            invariant
                i <= self.entries.len(),
                wanted@ == path@,
                readings_of(self.entries@).contains_key(path@) == readings_of(
                    self.entries@.take(i as int),
                ).contains_key(path@),
                readings_of(self.entries@).contains_key(path@) ==> readings_of(
                    self.entries@,
                )[path@] == readings_of(self.entries@.take(i as int))[path@],
            decreases i,
        {
            proof {
                assert(self.entries@.take(i as int).drop_last() =~= self.entries@.take(i - 1));
            }
            if self.entries[i - 1].0 == wanted {
                return Some(&self.entries[i - 1].1);
            }
            i -= 1;
        }
        proof {
            assert(self.entries@.take(0) =~= Seq::<(String, Reading)>::empty());
        }
        None
    }

    /// Whether `path` was looked at.
    pub fn contains(&self, path: &str) -> (r: bool)
        ensures
            r == self@.contains_key(path@),
    {
        self.get(path).is_some()
    }
}

} // verus!

use vstd::prelude::*;

verus! {

/// Configuration of the synchronization engine itself: the sustained number
/// of remote requests per second that the shared admission gate allows.
pub struct Scraper {
    pub requests_per_second: u32,
}

/// Location of the local SQLite store.
pub struct Sqlite {
    pub path: String,
}

/// Process-wide settings, consumed when the synchronizer is constructed.
pub struct Settings {
    pub scraper: Scraper,
    pub sqlite: Sqlite,
}

impl Settings {
    /// Well-formed settings: the admission rate is positive.
    pub open spec fn wf(&self) -> bool {
        self.scraper.requests_per_second > 0
    }

    /// The built-in defaults: five requests per second, and the local store
    /// at `data/folketinget.sqlite3`. Callers that read overrides from the
    /// process environment start from these values.
    pub fn new() -> (s: Settings)
        ensures
            s.wf(),
            s.scraper.requests_per_second == 5,
            s.sqlite.path@ == "data/folketinget.sqlite3"@,
    {
        Settings {
            scraper: Scraper { requests_per_second: 5 },
            sqlite: Sqlite { path: "data/folketinget.sqlite3".to_owned() },
        }
    }
}

} // verus!

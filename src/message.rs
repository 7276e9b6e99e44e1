use vstd::prelude::*;

verus! {

/// One example of a problem: an input and its expected output.
#[derive(Debug, Clone)]
pub struct CompetitiveCompanionTest {
    pub input: String,
    pub output: String,
}

/// Where a problem reads its input from.
#[derive(Debug, Clone)]
pub enum CompetitiveCompanionInputType {
    Stdin,
    File { file_name: String },
    Regex { pattern: String },
}

/// Where a problem writes its output to.
#[derive(Debug, Clone)]
pub enum CompetitiveCompanionOutputType {
    Stdout,
    File { file_name: String },
}

/// The batch a message belongs to.
#[derive(Debug, Clone)]
pub struct CompetitiveCompanionBatch {
    pub id: String,
    pub size: u32,
}

/// Per-language metadata of a problem.
#[derive(Debug, Clone)]
pub struct CompetitiveCompanionLanguages {
    pub java: Option<CompetitiveCompanionLanguageJava>,
}

/// Class names for Java solutions.
#[derive(Debug, Clone)]
pub struct CompetitiveCompanionLanguageJava {
    pub main_class: String,
    pub task_class: String,
}

/// How the tests of a problem are grouped.
#[derive(Debug, Clone, Copy, PartialEq, Eq, Structural)]
pub enum CompetitiveCompanionTestType {
    Single,
    MultiNumber,
}

/// A problem definition pushed by the companion tool.
#[derive(Debug, Clone)]
pub struct CompetitiveCompanionMessage {
    pub name: String,
    pub group: String,
    pub url: String,
    pub interactive: Option<bool>,
    /// memory limit in MB
    pub memory_limit: u64,
    /// time limit in milliseconds
    pub time_limit: u64,
    pub tests: Vec<CompetitiveCompanionTest>,
    pub test_type: CompetitiveCompanionTestType,
    pub input: CompetitiveCompanionInputType,
    pub output: CompetitiveCompanionOutputType,
    pub languages: CompetitiveCompanionLanguages,
    pub batch: CompetitiveCompanionBatch,
}

/// Whether a line begins at `i`: at the start, or right after a line feed.
pub open spec fn line_starts_at(s: Seq<u8>, i: int) -> bool {
    i == 0 || (0 < i <= s.len() && s[i - 1] == 10)
}

/// Where the blank line that begins at `i` ends (after its line feed), if a
/// blank line (empty, or a lone carriage return) begins there.
pub open spec fn blank_line_end(s: Seq<u8>, i: int) -> Option<int> {
    if !line_starts_at(s, i) || i < 0 {
        None
    } else if i < s.len() && s[i] == 10 {
        Some(i + 1)
    } else if i + 1 < s.len() && s[i] == 13 && s[i + 1] == 10 {
        Some(i + 2)
    } else {
        None
    }
}

/// The first blank line begins at `i`.
pub open spec fn first_blank_line(s: Seq<u8>, i: int) -> bool {
    &&& blank_line_end(s, i) is Some
    &&& forall|j: int| 0 <= j < i ==> #[trigger] blank_line_end(s, j) is None
}

/// The body of a payload: what follows its first blank line; nothing if it
/// has none.
pub open spec fn payload_body(s: Seq<u8>) -> Seq<u8> {
    if exists|i: int| first_blank_line(s, i) {
        let i = choose|i: int| first_blank_line(s, i);
        s.subrange(blank_line_end(s, i).unwrap(), s.len() as int)
    } else {
        Seq::empty()
    }
}

/// Drops the transport framing: everything up to and including the first
/// blank line.
pub fn strip_transport_header(payload: &[u8]) -> (r: Vec<u8>)
    ensures
        r@ == payload_body(payload@),
{
    let n = payload.len();
    let mut i: usize = 0;
    let mut start: Option<usize> = None;
    while i < n
        invariant
            n == payload@.len(),
            i <= n,
            start is None,
            forall|j: int| 0 <= j < i ==> #[trigger] blank_line_end(payload@, j) is None,
        decreases n - i,
    {
        if i == 0 || payload[i - 1] == 10 {
            if payload[i] == 10 {
                start = Some(i + 1);
            } else if i + 1 < n && payload[i] == 13 && payload[i + 1] == 10 {
                start = Some(i + 2);
            }
        }
        if let Some(b) = start {
            assert(first_blank_line(payload@, i as int));
            proof {
                let w = choose|w: int| first_blank_line(payload@, w);
                if w < i {
                    assert(blank_line_end(payload@, w) is None);
                } else if w > i {
                    assert(blank_line_end(payload@, i as int) is None);
                }
            }
            let mut r: Vec<u8> = Vec::new();
            let mut k: usize = b;
            while k < n
                invariant
                    n == payload@.len(),
                    b <= k <= n,
                    r@ == payload@.subrange(b as int, k as int),
                decreases n - k,
            {
                r.push(payload[k]);
                assert(r@ == payload@.subrange(b as int, k + 1));
                k = k + 1;
            }
            return r;
        }
        assert(blank_line_end(payload@, i as int) is None);
        i = i + 1;
    }
    proof {
        assert forall|j: int| !first_blank_line(payload@, j) by {
            if j >= n {
                assert(blank_line_end(payload@, j) is None);
            }
        }
    }
    Vec::new()
}

} // verus!

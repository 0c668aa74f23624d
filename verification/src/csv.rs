//! The persisted report: one header line, then one row for each scan.

use vstd::prelude::*;
use vstd::string::*;

verus! {

/// The header of the report, the first line of every report file.
pub const FILE_FIRST_LINE: &'static str =
    "Path,Duration_ms,Files,Directories,Empty_files,Less_than_4K,4K_8K,8K_16K,16K_32K,32K_64K,64K_128K,128K_256K,256K_512K,512K_1M,1M_10M,10M_100M,100M_1G,1G";

/// The header holds no line break and no carriage return.
pub proof fn lemma_header_is_one_line()
    ensures
        FILE_FIRST_LINE@.len() == 152,
        forall|i: int| 0 <= i < 152 ==> FILE_FIRST_LINE@[i] != '\n' && FILE_FIRST_LINE@[i] != '\r',
{
    reveal_strlit(
        "Path,Duration_ms,Files,Directories,Empty_files,Less_than_4K,4K_8K,8K_16K,16K_32K,32K_64K,64K_128K,128K_256K,256K_512K,512K_1M,1M_10M,10M_100M,100M_1G,1G",
    );
}

/// Why a report cannot be extended.
#[derive(Clone, Copy, Debug, PartialEq, Eq, Structural)]
pub enum CsvError {
    /// The file holds text and its first line is not the header.
    HeaderMismatch,
}

/// What a report file needs before a row is added.
#[derive(Clone, Copy, Debug, PartialEq, Eq, Structural)]
pub enum FileCheck {
    /// The file is empty: the header has to be written first.
    NewFile,
    /// The first line is the header: the row can follow.
    HeaderValid,
}

/// The position of the first line break of `s`, or the length of `s` where
/// it holds none.
pub open spec fn line_end(s: Seq<char>) -> int
    decreases s.len(),
{
    if s.len() == 0 || s[0] == '\n' {
        0
    } else {
        1 + line_end(s.drop_first())
    }
}

/// The first line of `s`: the text before the first line break, without the
/// carriage return that may precede that line break.
pub open spec fn first_line(s: Seq<char>) -> Seq<char> {
    let end = line_end(s);
    if end < s.len() && end > 0 && s[end - 1] == '\r' {
        s.take(end - 1)
    } else {
        s.take(end)
    }
}

/// What the check of a report file with the text `existing` gives.
pub open spec fn check_of(existing: Seq<char>) -> Result<FileCheck, CsvError> {
    if existing.len() == 0 {
        Ok(FileCheck::NewFile)
    } else if first_line(existing) == FILE_FIRST_LINE@ {
        Ok(FileCheck::HeaderValid)
    } else {
        Err(CsvError::HeaderMismatch)
    }
}

/// The text to add to a report file that holds `existing`, for a scan whose
/// row is `row`: into an empty file the header and the row, each on a line of
/// its own; after a valid header the row alone; otherwise nothing.
pub open spec fn appended_text(existing: Seq<char>, row: Seq<char>) -> Option<Seq<char>> {
    match check_of(existing) {
        Ok(FileCheck::NewFile) => Some(FILE_FIRST_LINE@ + seq!['\n'] + row + seq!['\n']),
        Ok(FileCheck::HeaderValid) => Some(row + seq!['\n']),
        Err(_) => None,
    }
}

/// The first line break of `s` lies within `s`, and nothing before it is a
/// line break.
pub proof fn lemma_line_end(s: Seq<char>)
    ensures
        0 <= line_end(s) <= s.len(),
        line_end(s) < s.len() ==> s[line_end(s)] == '\n',
        forall|i: int| 0 <= i < line_end(s) ==> s[i] != '\n',
    decreases s.len(),
{
    if !(s.len() == 0 || s[0] == '\n') {
        let rest = s.drop_first();
        lemma_line_end(rest);
        assert forall|i: int| 0 <= i < line_end(s) implies s[i] != '\n' by {
            if i > 0 {
                assert(s[i] == rest[i - 1]);
            }
        }
    }
}

/// A position that follows no line break, and is the end of `s` or a line
/// break itself, is the first line break of `s`.
pub proof fn lemma_line_end_at(s: Seq<char>, k: int)
    requires
        0 <= k <= s.len(),
        forall|i: int| 0 <= i < k ==> s[i] != '\n',
        k == s.len() || s[k] == '\n',
    ensures
        line_end(s) == k,
{
    lemma_line_end(s);
}

/// Checks the text of a report file before a row is added: an empty file is
/// new, a file whose first line is the header is valid, any other is
/// refused.
pub fn check_file(existing: &str) -> (r: Result<FileCheck, CsvError>)
    ensures
        r == check_of(existing@),
{
    proof {
        lemma_header_is_one_line();
        lemma_line_end(existing@);
    }
    let n = existing.unicode_len();
    if n == 0 {
        return Ok(FileCheck::NewFile);
    }
    let h = FILE_FIRST_LINE.unicode_len();
    if n < h {
        return Err(CsvError::HeaderMismatch);
    }
    let mut i: usize = 0;
    while i < h
        invariant
            i <= h,
            h == FILE_FIRST_LINE@.len(),
            h <= n,
            n == existing@.len(),
            forall|j: int| 0 <= j < i ==> existing@[j] == FILE_FIRST_LINE@[j],
        decreases h - i,
    {
        if existing.get_char(i) != FILE_FIRST_LINE.get_char(i) {
            proof {
                lemma_line_end(existing@);
                if first_line(existing@) == FILE_FIRST_LINE@ {
                    assert(first_line(existing@)[i as int] == existing@[i as int]);
                }
            }
            return Err(CsvError::HeaderMismatch);
        }
        i += 1;
    }
    proof {
        assert(existing@.take(h as int) =~= FILE_FIRST_LINE@);
        assert(line_end(existing@) >= h) by {
            if line_end(existing@) < h {
                assert(existing@[line_end(existing@)] == FILE_FIRST_LINE@[line_end(existing@)]);
            }
        }
        assert(existing@[h - 1] == FILE_FIRST_LINE@[h - 1]);
    }
    if n == h {
        return Ok(FileCheck::HeaderValid);
    }
    let c = existing.get_char(h);
    if c == '\n' {
        proof {
            lemma_line_end_at(existing@, h as int);
        }
        Ok(FileCheck::HeaderValid)
    } else if c == '\r' && n > h + 1 && existing.get_char(h + 1) == '\n' {
        proof {
            lemma_line_end_at(existing@, h + 1);
        }
        Ok(FileCheck::HeaderValid)
    } else {
        Err(CsvError::HeaderMismatch)
    }
}

/// The text to add to a report file for the result of one scan, or the
/// reason why the file must stay as it is.
pub fn save(existing: &str, res: &crate::objects::Result) -> (r: Result<String, CsvError>)
    ensures
        match r {
            Ok(text) => appended_text(existing@, res.csv_text()) == Some(text@),
            Err(e) => appended_text(existing@, res.csv_text()).is_none() && check_of(existing@)
                == Err::<FileCheck, CsvError>(e),
        },
{
    proof {
        reveal_strlit("\n");
    }
    assert("\n"@ =~= seq!['\n']);
    match check_file(existing) {
        Ok(FileCheck::NewFile) => {
            let mut text = String::from_str(FILE_FIRST_LINE);
            text.append("\n");
            let row = res.csv_line();
            text.append(row.as_str());
            text.append("\n");
            Ok(text)
        },
        Ok(FileCheck::HeaderValid) => {
            let mut text = res.csv_line();
            text.append("\n");
            Ok(text)
        },
        Err(e) => Err(e),
    }
}

/// A text that starts with the header and a line break has the header as
/// its first line.
pub proof fn lemma_header_then_rows(rest: Seq<char>)
    ensures
        first_line(FILE_FIRST_LINE@ + seq!['\n'] + rest) == FILE_FIRST_LINE@,
        check_of(FILE_FIRST_LINE@ + seq!['\n'] + rest) == Ok::<FileCheck, CsvError>(
            FileCheck::HeaderValid,
        ),
{
    lemma_header_is_one_line();
    let s = FILE_FIRST_LINE@ + seq!['\n'] + rest;
    assert(s[152] == '\n');
    assert forall|i: int| 0 <= i < 152 implies s[i] != '\n' by {
        assert(s[i] == FILE_FIRST_LINE@[i]);
    }
    lemma_line_end_at(s, 152);
    assert(s[151] == FILE_FIRST_LINE@[151]);
    assert(s.take(152) =~= FILE_FIRST_LINE@);
}

/// Two scans written one after the other to an empty report give the header
/// once, then the row of the first scan, then the row of the second, each on
/// a line of its own. A report whose first line is not the header accepts no
/// further row.
pub proof fn law_report_round_trip(first: Seq<char>, second: Seq<char>, altered: Seq<char>)
    requires
        altered.len() > 0,
        first_line(altered) != FILE_FIRST_LINE@,
    ensures
        appended_text(Seq::empty(), first) == Some(
            FILE_FIRST_LINE@ + seq!['\n'] + first + seq!['\n'],
        ),
        appended_text(appended_text(Seq::empty(), first).unwrap(), second) == Some(
            second + seq!['\n'],
        ),
        appended_text(Seq::empty(), first).unwrap() + appended_text(
            appended_text(Seq::empty(), first).unwrap(),
            second,
        ).unwrap() == FILE_FIRST_LINE@ + seq!['\n'] + first + seq!['\n'] + second + seq!['\n'],
        appended_text(altered, second).is_none(),
{
    let once = FILE_FIRST_LINE@ + seq!['\n'] + first + seq!['\n'];
    lemma_header_then_rows(first + seq!['\n']);
    assert(FILE_FIRST_LINE@ + seq!['\n'] + (first + seq!['\n']) =~= once);
    assert(once.len() > 0);
    assert(once + (second + seq!['\n']) =~= FILE_FIRST_LINE@ + seq!['\n'] + first + seq!['\n']
        + second + seq!['\n']);
}

} // verus!

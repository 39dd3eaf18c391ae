//! Where the generated texts go: file names, paths and the contents of the
//! collected script.  Writing the files is left to the caller.
use vstd::prelude::*;
use vstd::string::StringExecFns;

use crate::text::{decimal, digit_char, push_decimal, push_str, replace_all, replace_exec, chars_of, string_of, str_eq};

verus! {

/// `v` in decimal, zero-padded to at least four digits.
pub open spec fn padded4(v: nat) -> Seq<char> {
    if v < 10 {
        "000"@ + decimal(v)
    } else if v < 100 {
        "00"@ + decimal(v)
    } else if v < 1000 {
        "0"@ + decimal(v)
    } else {
        decimal(v)
    }
}

/// A year as chrono's `%Y` writes it: four digits from 0 to 9999, else a
/// sign and at least four digits.
pub open spec fn year_text(y: int) -> Seq<char> {
    if 0 <= y <= 9999 {
        padded4(y as nat)
    } else if y > 9999 {
        seq!['+'] + padded4(y as nat)
    } else {
        seq!['-'] + padded4((-y) as nat)
    }
}

/// A number below 100 as two digits (chrono's `%m`, `%d`, `%H`, `%M`, `%S`).
pub open spec fn two_digits(n: int) -> Seq<char> {
    seq![digit_char(n / 10), digit_char(n % 10)]
}

/// A date and time chrono can hold: a year within its range, a month, a
/// day, an hour, a minute and a second (60 in a leap second).
pub open spec fn clock_fields(y: int, mo: int, d: int, h: int, mi: int, s: int) -> bool {
    &&& -262144 <= y <= 262143
    &&& 1 <= mo <= 12
    &&& 1 <= d <= 31
    &&& 0 <= h <= 23
    &&& 0 <= mi <= 59
    &&& 0 <= s <= 60
}

/// A time written `%Y%m%d_%H%M%S`.
pub open spec fn compact_text(y: int, mo: int, d: int, h: int, mi: int, s: int) -> Seq<char> {
    year_text(y) + two_digits(mo) + two_digits(d) + "_"@ + two_digits(h) + two_digits(mi) + two_digits(s)
}

/// A time written `%Y-%m-%d %H:%M`.
pub open spec fn minute_text(y: int, mo: int, d: int, h: int, mi: int) -> Seq<char> {
    year_text(y) + "-"@ + two_digits(mo) + "-"@ + two_digits(d) + " "@ + two_digits(h) + ":"@ + two_digits(mi)
}

/// Some time written `%Y%m%d_%H%M%S`.
pub open spec fn compact_stamp(t: Seq<char>) -> bool {
    exists|y: int, mo: int, d: int, h: int, mi: int, s: int|
        clock_fields(y, mo, d, h, mi, s) && t == #[trigger] compact_text(y, mo, d, h, mi, s)
}

/// Some time written `%Y-%m-%d %H:%M`.
pub open spec fn minute_stamp(t: Seq<char>) -> bool {
    exists|y: int, mo: int, d: int, h: int, mi: int|
        clock_fields(y, mo, d, h, mi, 0) && t == #[trigger] minute_text(y, mo, d, h, mi)
}

/// Calls `chrono::Local::now` and formats the result with `format(fmt)`:
/// the local time as text.  chrono writes `%Y` as the year, zero-padded to
/// four digits (signed outside 0 to 9999), and `%m`, `%d`, `%H`, `%M`, `%S`
/// as two digits each, so the text has the form of the format; which time,
/// and in which time zone, is left unsaid.  Only the two formats used here
/// are allowed: `to_string` panics on a format that chrono cannot render,
/// and these it can.
#[verifier::external_body]
fn local_time_text(fmt: &str) -> (r: String)
    requires
        fmt@ == "%Y%m%d_%H%M%S"@ || fmt@ == "%Y-%m-%d %H:%M"@,
    ensures
        fmt@ == "%Y%m%d_%H%M%S"@ ==> compact_stamp(r@),
        fmt@ == "%Y-%m-%d %H:%M"@ ==> minute_stamp(r@),
{
    chrono::Local::now().format(fmt).to_string()
}

/// `name` below the directory `dir`, as `Path::join` builds it on Unix: an
/// absolute name stands alone; otherwise a `/` separates the two unless
/// `dir` is empty or already ends with one.
pub open spec fn join_path(dir: Seq<char>, name: Seq<char>) -> Seq<char> {
    if name.len() > 0 && name[0] == '/' {
        name
    } else if dir.len() == 0 {
        name
    } else if dir.last() == '/' {
        dir + name
    } else {
        dir + "/"@ + name
    }
}

/// `name` below the directory `dir`.
pub fn join_path_exec(dir: &str, name: &str) -> (r: String)
    ensures
        r@ == join_path(dir@, name@),
{
    let d = chars_of(dir);
    let n = chars_of(name);
    if n.len() > 0 && n[0] == '/' {
        return String::from_str(name);
    }
    if d.len() == 0 {
        return String::from_str(name);
    }
    let mut out = d.clone();
    if d[d.len() - 1] != '/' {
        push_str(&mut out, "/");
    }
    push_str(&mut out, name);
    proof {
        assert(d@.last() == d@[d.len() - 1]);
    }
    string_of(out.as_slice())
}

/// The file extension of an output format; Markdown by default.
pub open spec fn extension_of(format: Seq<char>) -> Seq<char> {
    if format == "markdown"@ || format == "md"@ {
        "md"@
    } else if format == "json"@ {
        "json"@
    } else if format == "toml"@ {
        "toml"@
    } else if format == "txt"@ {
        "txt"@
    } else {
        "md"@
    }
}

/// The file extension of an output format.
pub fn file_extension(format: &str) -> (r: &'static str)
    ensures
        r@ == extension_of(format@),
{
    if str_eq(format, "markdown") || str_eq(format, "md") {
        "md"
    } else if str_eq(format, "json") {
        "json"
    } else if str_eq(format, "toml") {
        "toml"
    } else if str_eq(format, "txt") {
        "txt"
    } else {
        "md"
    }
}

/// The name of the `n`-th output: `{n}_{prefix}_{stamp}.{extension}`.
pub open spec fn output_name(n: nat, prefix: Seq<char>, stamp: Seq<char>, format: Seq<char>) -> Seq<char> {
    decimal(n) + "_"@ + prefix + "_"@ + stamp + "."@ + extension_of(format)
}

/// The name of an execution log: `execution_log_{stamp}.md`.
pub open spec fn log_name(stamp: Seq<char>) -> Seq<char> {
    "execution_log_"@ + stamp + ".md"@
}

/// A file to write: where, and what.
#[derive(Debug)]
pub struct FileWrite {
    pub path: String,
    pub content: String,
}

/// Names and places the generated files below an output directory;
/// numbers the outputs it names, from one.
pub struct OutputManager {
    output_dir: String,
    file_counter: usize,
}

impl OutputManager {
    pub closed spec fn dir(&self) -> Seq<char> {
        self.output_dir@
    }

    /// How many outputs were numbered so far.
    pub closed spec fn counter(&self) -> nat {
        self.file_counter as nat
    }

    pub fn new(output_dir: &str) -> (r: OutputManager)
        ensures
            r.dir() == output_dir@,
            r.counter() == 0,
    {
        OutputManager { output_dir: String::from_str(output_dir), file_counter: 0 }
    }

    /// The output directory.
    pub fn output_dir(&self) -> (r: &str)
        ensures
            r@ == self.dir(),
    {
        self.output_dir.as_str()
    }

    /// How many outputs were numbered so far.
    pub fn file_count(&self) -> (r: usize)
        ensures
            r == self.counter(),
    {
        self.file_counter
    }

    fn write_to(&self, name: &str, content: &str) -> (r: FileWrite)
        ensures
            r.path@ == join_path(self.dir(), name@),
            r.content@ == content@,
    {
        FileWrite { path: join_path_exec(self.output_dir.as_str(), name), content: String::from_str(content) }
    }

    /// The next numbered output: `{n}_{prefix}_{local time}.{extension}`,
    /// `n` counting the outputs from one, the time as `%Y%m%d_%H%M%S`.
    pub fn save_output(&mut self, prefix: &str, format: &str, content: &str) -> (r: FileWrite)
        requires
            old(self).counter() < usize::MAX,
        ensures
            final(self).dir() == old(self).dir(),
            final(self).counter() == old(self).counter() + 1,
            r.content@ == content@,
            exists|stamp: Seq<char>| compact_stamp(stamp) && r.path@ == join_path(
                old(self).dir(),
                #[trigger] output_name(old(self).counter() + 1, prefix@, stamp, format@),
            ),
    {
        self.file_counter = self.file_counter + 1;
        let n = self.file_counter;
        let stamp = local_time_text("%Y%m%d_%H%M%S");
        assert(compact_stamp(stamp@));
        let mut name: Vec<char> = Vec::new();
        push_decimal(&mut name, n as u64);
        push_str(&mut name, "_");
        push_str(&mut name, prefix);
        push_str(&mut name, "_");
        push_str(&mut name, stamp.as_str());
        push_str(&mut name, ".");
        push_str(&mut name, file_extension(format));
        let name = string_of(name.as_slice());
        proof {
            assert(name@ =~= output_name(n as nat, prefix@, stamp@, format@));
        }
        let r = self.write_to(name.as_str(), content);
        assert(compact_stamp(stamp@) && r.path@ == join_path(old(self).dir(), output_name(n as nat, prefix@, stamp@, format@)));
        r
    }

    /// A file named `filename` below the output directory.
    pub fn save_file(&self, filename: &str, content: &str) -> (r: FileWrite)
        ensures
            r.path@ == join_path(self.dir(), filename@),
            r.content@ == content@,
    {
        self.write_to(filename, content)
    }

    /// A version of an output: `{prefix}_v{version}.{extension}`.
    pub fn save_versioned(&self, prefix: &str, version: u32, format: &str, content: &str) -> (r: FileWrite)
        ensures
            r.path@ == join_path(self.dir(), prefix@ + "_v"@ + decimal(version as nat) + "."@ + extension_of(format@)),
            r.content@ == content@,
    {
        let mut name: Vec<char> = Vec::new();
        push_str(&mut name, prefix);
        push_str(&mut name, "_v");
        push_decimal(&mut name, version as u64);
        push_str(&mut name, ".");
        push_str(&mut name, file_extension(format));
        let name = string_of(name.as_slice());
        self.write_to(name.as_str(), content)
    }

    /// The path of a subdirectory of the output directory.
    pub fn create_subdir(&self, name: &str) -> (r: String)
        ensures
            r@ == join_path(self.dir(), name@),
    {
        join_path_exec(self.output_dir.as_str(), name)
    }

    /// The path of an output file.
    pub fn read_output(&self, filename: &str) -> (r: String)
        ensures
            r@ == join_path(self.dir(), filename@),
    {
        join_path_exec(self.output_dir.as_str(), filename)
    }

    /// The execution log: `execution_log_{local time}.md`, the time as
    /// `%Y%m%d_%H%M%S`.
    pub fn save_log(&self, log_content: &str) -> (r: FileWrite)
        ensures
            r.content@ == log_content@,
            exists|stamp: Seq<char>| compact_stamp(stamp) && r.path@ == join_path(self.dir(), #[trigger] log_name(stamp)),
    {
        let stamp = local_time_text("%Y%m%d_%H%M%S");
        let mut name: Vec<char> = Vec::new();
        push_str(&mut name, "execution_log_");
        push_str(&mut name, stamp.as_str());
        push_str(&mut name, ".md");
        let name = string_of(name.as_slice());
        proof {
            assert(name@ =~= log_name(stamp@));
        }
        self.save_file(name.as_str(), log_content)
    }

    /// A JSON report: `{report_name}.json`.
    pub fn save_json_report(&self, report_name: &str, content: &str) -> (r: FileWrite)
        ensures
            r.path@ == join_path(self.dir(), report_name@ + ".json"@),
            r.content@ == content@,
    {
        let mut name: Vec<char> = Vec::new();
        push_str(&mut name, report_name);
        push_str(&mut name, ".json");
        let name = string_of(name.as_slice());
        self.save_file(name.as_str(), content)
    }
}

/// The section of one episode in the collected script.
pub open spec fn episode_section(e: (u32, String)) -> Seq<char> {
    "## 第 "@ + decimal(e.0 as nat) + " 集\n\n"@ + e.1@ + "\n---\n\n"@
}

pub open spec fn episode_sections(es: Seq<(u32, String)>) -> Seq<char>
    decreases es.len(),
{
    if es.len() == 0 {
        seq![]
    } else {
        episode_sections(es.drop_last()) + episode_section(es.last())
    }
}

/// The collected script: the title, when it was made, the number of
/// episodes, then each episode.
pub open spec fn collection_text(title: Seq<char>, stamp: Seq<char>, es: Seq<(u32, String)>) -> Seq<char> {
    "# "@ + title + "\n\n"@ + "*生成时间："@ + stamp + "*\n\n"@ + "*总集数："@ + decimal(es.len()) + "*\n\n"@
        + "---\n\n"@ + episode_sections(es)
}

impl OutputManager {
    /// The collected script, in `{title}_完整剧本合集.md` with each `/` of the
    /// title made `_`; made at the local time written `%Y-%m-%d %H:%M`.
    pub fn save_final_script_collection(&self, drama_title: &str, episodes: Vec<(u32, String)>) -> (r: FileWrite)
        ensures
            r.path@ == join_path(self.dir(), replace_all(drama_title@, "/"@, "_"@) + "_完整剧本合集.md"@),
            exists|stamp: Seq<char>| minute_stamp(stamp) && r.content@ == #[trigger] collection_text(drama_title@, stamp, episodes@),
    {
        let stamp = local_time_text("%Y-%m-%d %H:%M");
        let mut out: Vec<char> = Vec::new();
        push_str(&mut out, "# ");
        push_str(&mut out, drama_title);
        push_str(&mut out, "\n\n");
        push_str(&mut out, "*生成时间：");
        push_str(&mut out, stamp.as_str());
        push_str(&mut out, "*\n\n");
        push_str(&mut out, "*总集数：");
        push_decimal(&mut out, episodes.len() as u64);
        push_str(&mut out, "*\n\n");
        push_str(&mut out, "---\n\n");
        let ghost head = out@;
        let mut k: usize = 0;
        proof {
            assert(episodes@.take(0) =~= Seq::<(u32, String)>::empty());
        }
        while k < episodes.len()
            invariant
                k <= episodes.len(),
                out@ == head + episode_sections(episodes@.take(k as int)),
            decreases episodes.len() - k,
        {
            let ghost o0 = out@;
            push_str(&mut out, "## 第 ");
            push_decimal(&mut out, episodes[k].0 as u64);
            push_str(&mut out, " 集\n\n");
            push_str(&mut out, episodes[k].1.as_str());
            push_str(&mut out, "\n---\n\n");
            proof {
                assert(episodes@.take(k + 1).drop_last() =~= episodes@.take(k as int));
                assert(out@ =~= o0 + episode_section(episodes@[k as int]));
            }
            k += 1;
        }
        proof {
            assert(episodes@.take(episodes.len() as int) =~= episodes@);
            assert(out@ =~= collection_text(drama_title@, stamp@, episodes@));
        }
        let tc = chars_of(drama_title);
        let slash = chars_of("/");
        let under = chars_of("_");
        proof {
            reveal_strlit("/");
        }
        let mut name = replace_exec(tc.as_slice(), slash.as_slice(), under.as_slice());
        push_str(&mut name, "_完整剧本合集.md");
        let name = string_of(name.as_slice());
        let content = string_of(out.as_slice());
        self.save_file(name.as_str(), content.as_str())
    }
}

} // verus!

//! Reading a skill definition written in Markdown.
use vstd::prelude::*;
use vstd::string::{StrSliceExecFns, StringExecFns};

use crate::skills::{
    lookup, strs, SkillRegistry, SkillDefinition, SkillInput, SkillMeta, SkillOutput, SkillPrompt, SkillReview,
};
use crate::text::{
    chars_of, contains, contains_exec, index_of, index_of_exec, lemma_index_of_facts,
    lemma_index_of_is, lines, lines_exec, second_field, second_field_exec, slice_from, slice_to,
    starts_with, starts_with_exec, str_eq, string_of, strip_leading, strip_leading_chars,
    strip_trailing, strip_trailing_chars, trim, trim_chars, views,
};

verus! {

/// The pieces of `s` between the separators `c` (`str::split` with a char):
/// always at least one piece.
pub open spec fn split_on(s: Seq<char>, c: char) -> Seq<Seq<char>>
    decreases s.len(),
{
    match index_of(s, c) {
        None => seq![s],
        Some(i) => {
            proof {
                lemma_index_of_facts(s, c);
            }
            seq![s.take(i)] + split_on(s.skip(i + 1), c)
        },
    }
}

/// The value of a `**Key**: value` line: the text after the first `:` (up
/// to a second `:`), trimmed, with surrounding backticks and asterisks and
/// then whitespace taken off; empty when the line has no `:`.
pub open spec fn inline_value(line: Seq<char>) -> Seq<char> {
    match second_field(line, ':') {
        Some(v) => trim(
            strip_trailing(strip_leading(strip_trailing(strip_leading(trim(v), '`'), '`'), '*'), '*'),
        ),
        None => seq![],
    }
}

/// A list item of an input or dependency line, or a file prefix: trimmed,
/// surrounding backticks and then whitespace taken off.
pub open spec fn clean_item(x: Seq<char>) -> Seq<char> {
    trim(strip_trailing(strip_leading(trim(x), '`'), '`'))
}

/// The cleaned pieces, the empty ones left out.
pub open spec fn clean_items(pieces: Seq<Seq<char>>) -> Seq<Seq<char>>
    decreases pieces.len(),
{
    if pieces.len() == 0 {
        seq![]
    } else {
        let prev = clean_items(pieces.drop_last());
        let c = clean_item(pieces.last());
        if c.len() > 0 {
            prev.push(c)
        } else {
            prev
        }
    }
}

/// What the sections of a skill file have set so far.
pub struct SectionFields {
    pub required: Seq<Seq<char>>,
    pub optional: Seq<Seq<char>>,
    pub output_format: Seq<char>,
    pub file_prefix: Seq<char>,
    pub creation_prompt: Seq<char>,
    pub repair_prompt: Seq<char>,
    pub review_criteria: Seq<Seq<char>>,
    pub review_prompt: Seq<char>,
    pub auto_repair: bool,
}

/// One line of the `输入` section: a `Required` line adds its items to the
/// required inputs, an `Optional` line to the optional ones.
pub open spec fn input_step(f: SectionFields, line: Seq<char>) -> SectionFields {
    if contains(line, "Required"@) {
        match second_field(line, ':') {
            Some(rest) => SectionFields { required: f.required + clean_items(split_on(rest, ',')), ..f },
            None => f,
        }
    } else if contains(line, "Optional"@) {
        match second_field(line, ':') {
            Some(rest) => SectionFields { optional: f.optional + clean_items(split_on(rest, ',')), ..f },
            None => f,
        }
    } else {
        f
    }
}

/// One line of the `输出` section: a `Format` line sets the format, a
/// `File Prefix` line the file prefix, its backticks taken off.
pub open spec fn output_step(f: SectionFields, line: Seq<char>) -> SectionFields {
    if contains(line, "Format"@) {
        match second_field(line, ':') {
            Some(v) => SectionFields { output_format: trim(v), ..f },
            None => f,
        }
    } else if contains(line, "File Prefix"@) {
        match second_field(line, ':') {
            Some(v) => SectionFields { file_prefix: clean_item(v), ..f },
            None => f,
        }
    } else {
        f
    }
}

/// The lines of a section taken through `step`, first to last.
pub open spec fn input_scan(f: SectionFields, ls: Seq<Seq<char>>) -> SectionFields
    decreases ls.len(),
{
    if ls.len() == 0 {
        f
    } else {
        input_step(input_scan(f, ls.drop_last()), ls.last())
    }
}

pub open spec fn output_scan(f: SectionFields, ls: Seq<Seq<char>>) -> SectionFields
    decreases ls.len(),
{
    if ls.len() == 0 {
        f
    } else {
        output_step(output_scan(f, ls.drop_last()), ls.last())
    }
}

/// Where the reading of a `Review` section stands.
pub struct ReviewScan {
    pub in_criteria: bool,
    pub in_prompt: bool,
    pub criteria: Seq<Seq<char>>,
    pub prompt_buf: Seq<char>,
    pub auto_repair: bool,
}

/// One line of the `Review` section: a `审查标准` line opens the criteria,
/// a `Review Prompt` line the prompt, an `输出格式` or `Auto Repair` line
/// closes both (and `Auto Repair ... true` turns auto repair on); inside the
/// criteria each `- ` item adds its trimmed text, inside the prompt each line
/// is kept.
pub open spec fn review_step(r: ReviewScan, line: Seq<char>) -> ReviewScan {
    if contains(line, "审查标准"@) {
        ReviewScan { in_criteria: true, in_prompt: false, ..r }
    } else if contains(line, "Review Prompt"@) {
        ReviewScan { in_criteria: false, in_prompt: true, ..r }
    } else if contains(line, "输出格式"@) || contains(line, "Auto Repair"@) {
        ReviewScan {
            in_criteria: false,
            in_prompt: false,
            auto_repair: if contains(line, "Auto Repair"@) && contains(line, "true"@) {
                true
            } else {
                r.auto_repair
            },
            ..r
        }
    } else if r.in_criteria && starts_with(line, "- "@) {
        let c = trim(line.skip(2));
        if c.len() > 0 {
            ReviewScan { criteria: r.criteria.push(c), ..r }
        } else {
            r
        }
    } else if r.in_prompt {
        ReviewScan { prompt_buf: r.prompt_buf + line + seq!['\n'], ..r }
    } else {
        r
    }
}

pub open spec fn review_scan(r: ReviewScan, ls: Seq<Seq<char>>) -> ReviewScan
    decreases ls.len(),
{
    if ls.len() == 0 {
        r
    } else {
        review_step(review_scan(r, ls.drop_last()), ls.last())
    }
}

/// What a section named `section` with text `content` does to the fields.
pub open spec fn section_effect(section: Seq<char>, content: Seq<char>, f: SectionFields) -> SectionFields {
    if section == "输入"@ {
        input_scan(f, lines(content))
    } else if section == "输出"@ {
        output_scan(f, lines(content))
    } else if section == "Prompt: Creation"@ {
        SectionFields { creation_prompt: trim(content), ..f }
    } else if section == "Prompt: Repair"@ {
        SectionFields { repair_prompt: trim(content), ..f }
    } else if section == "Review"@ {
        let r = review_scan(
            ReviewScan {
                in_criteria: false,
                in_prompt: false,
                criteria: seq![],
                prompt_buf: seq![],
                auto_repair: f.auto_repair,
            },
            lines(content),
        );
        SectionFields {
            review_criteria: r.criteria,
            review_prompt: trim(r.prompt_buf),
            auto_repair: r.auto_repair,
            ..f
        }
    } else {
        f
    }
}

/// Where the reading of a skill file stands.
pub struct MdScan {
    pub name: Seq<char>,
    pub version: Seq<char>,
    pub stage: Seq<char>,
    pub category: Seq<char>,
    pub depends_on: Seq<Seq<char>>,
    pub description: Seq<char>,
    pub current_section: Seq<char>,
    pub section_content: Seq<char>,
    pub fields: SectionFields,
}

/// The state before the first line.
pub open spec fn md_init() -> MdScan {
    MdScan {
        name: seq![],
        version: "1.0"@,
        stage: seq![],
        category: seq![],
        depends_on: seq![],
        description: seq![],
        current_section: seq![],
        section_content: seq![],
        fields: SectionFields {
            required: seq![],
            optional: seq![],
            output_format: "markdown"@,
            file_prefix: seq![],
            creation_prompt: seq![],
            repair_prompt: seq![],
            review_criteria: seq![],
            review_prompt: seq![],
            auto_repair: false,
        },
    }
}

/// One line of a skill file: a `## ` heading closes the open section and
/// opens a new one; `**Key**:` lines set the header; other lines extend the
/// description (in `描述`) or the open section's text.
pub open spec fn md_step(st: MdScan, line: Seq<char>) -> MdScan {
    if starts_with(line, "# Skill:"@) || starts_with(line, "# Skill："@) {
        st
    } else if starts_with(line, "## "@) {
        MdScan {
            fields: if st.current_section.len() > 0 {
                section_effect(st.current_section, st.section_content, st.fields)
            } else {
                st.fields
            },
            current_section: trim(line.skip(3)),
            section_content: seq![],
            ..st
        }
    } else if starts_with(line, "**Name**:"@) {
        MdScan { name: inline_value(line), ..st }
    } else if starts_with(line, "**Version**:"@) {
        MdScan { version: inline_value(line), ..st }
    } else if starts_with(line, "**Stage**:"@) {
        MdScan { stage: inline_value(line), ..st }
    } else if starts_with(line, "**Category**:"@) {
        MdScan { category: inline_value(line), ..st }
    } else if starts_with(line, "**Depends On**:"@) {
        let v = inline_value(line);
        if v != "none"@ && v.len() > 0 {
            MdScan { depends_on: split_on(v, ',').map_values(|p: Seq<char>| clean_item(p)), ..st }
        } else {
            st
        }
    } else if st.current_section == "描述"@ {
        if line.len() > 0 {
            MdScan { description: st.description + line + seq![' '], ..st }
        } else {
            st
        }
    } else if st.current_section.len() > 0 {
        MdScan { section_content: st.section_content + line + seq!['\n'], ..st }
    } else {
        st
    }
}

pub open spec fn md_scan(ls: Seq<Seq<char>>) -> MdScan
    decreases ls.len(),
{
    if ls.len() == 0 {
        md_init()
    } else {
        md_step(md_scan(ls.drop_last()), ls.last())
    }
}

/// The fields once the last section is closed.
pub open spec fn final_fields(st: MdScan) -> SectionFields {
    if st.current_section.len() > 0 {
        section_effect(st.current_section, st.section_content, st.fields)
    } else {
        st.fields
    }
}

/// The state after all lines of `content`.
pub open spec fn md_read(content: Seq<char>) -> MdScan {
    md_scan(lines(content))
}

/// `d` is the skill that a file read into `st` describes.
pub open spec fn describes(d: SkillDefinition, st: MdScan) -> bool {
    let f = final_fields(st);
    &&& d.skill.name@ == st.name
    &&& d.skill.description@ == trim(st.description)
    &&& d.skill.version@ == st.version
    &&& d.skill.stage@ == st.stage
    &&& d.skill.category@ == st.category
    &&& strs(d.skill.depends_on@) == st.depends_on
    &&& strs(d.input.required@) == f.required
    &&& strs(d.input.optional@) == f.optional
    &&& d.output.format@ == f.output_format
    &&& d.output.file_prefix@ == f.file_prefix
    &&& d.prompt.creation@ == f.creation_prompt
    &&& d.prompt.repair@ == f.repair_prompt
    &&& if f.review_criteria.len() > 0 || f.review_prompt.len() > 0 {
        &&& d.review is Some
        &&& strs(d.review->0.criteria@) == f.review_criteria
        &&& (if f.review_prompt.len() == 0 {
            d.review->0.prompt is None
        } else {
            d.review->0.prompt is Some && d.review->0.prompt->0@ == f.review_prompt
        })
        &&& d.review->0.auto_repair == f.auto_repair
    } else {
        d.review is None
    }
}


/// `s.split(c)`, collected.
pub fn split_on_exec(s: &[char], c: char) -> (r: Vec<Vec<char>>)
    ensures
        views(r@) == split_on(s@, c),
{
    let mut out: Vec<Vec<char>> = Vec::new();
    let mut start: usize = 0;
    let mut i: usize = 0;
    proof {
        assert(s@.skip(0) =~= s@);
        assert(views(out@) =~= seq![]);
    }
    while i < s.len()
        invariant
            start <= i <= s.len(),
            split_on(s@, c) == views(out@) + split_on(s@.skip(start as int), c),
            forall|j: int| start <= j < i ==> s@[j] != c,
        decreases s.len() - i,
    {
        if s[i] == c {
            let piece = crate::text::slice_range(s, start, i);
            proof {
                let rest = s@.skip(start as int);
                assert forall|j: int| 0 <= j < i - start implies rest[j] != c by {
                    assert(rest[j] == s@[start + j]);
                }
                lemma_index_of_is(rest, c, i - start);
                assert(rest.take(i - start) =~= s@.subrange(start as int, i as int));
                assert(rest.skip(i - start + 1) =~= s@.skip(i + 1));
                assert(views(out@.push(piece)) =~= views(out@).push(piece@));
            }
            out.push(piece);
            start = i + 1;
        }
        i += 1;
    }
    let last = slice_from(s, start);
    proof {
        let rest = s@.skip(start as int);
        assert forall|j: int| 0 <= j < rest.len() implies rest[j] != c by {
            assert(rest[j] == s@[start + j]);
        }
        lemma_index_of_is(rest, c, rest.len() as int);
        assert(views(out@.push(last)) =~= views(out@).push(last@));
    }
    out.push(last);
    proof {
        assert(views(out@) =~= split_on(s@, c));
    }
    out
}

/// The value of a `**Key**: value` line (see `inline_value`).
pub fn extract_inline_value(line: &str) -> (r: String)
    ensures
        r@ == inline_value(line@),
{
    let l = chars_of(line);
    match second_field_exec(l.as_slice(), ':') {
        Some(v) => {
            let a = trim_chars(v.as_slice());
            let b = strip_leading_chars(a.as_slice(), '`');
            let c = strip_trailing_chars(b.as_slice(), '`');
            let d = strip_leading_chars(c.as_slice(), '*');
            let e = strip_trailing_chars(d.as_slice(), '*');
            let f = trim_chars(e.as_slice());
            string_of(f.as_slice())
        },
        None => String::new(),
    }
}

fn clean_item_exec(x: &[char]) -> (r: Vec<char>)
    ensures
        r@ == clean_item(x@),
{
    let a = trim_chars(x);
    let b = strip_leading_chars(a.as_slice(), '`');
    let c = strip_trailing_chars(b.as_slice(), '`');
    trim_chars(c.as_slice())
}

/// Adds the cleaned, non-empty items of a comma-separated list.
fn append_items(list: &mut Vec<String>, rest: &[char])
    ensures
        strs(final(list)@) == strs(old(list)@) + clean_items(split_on(rest@, ',')),
{
    let pieces = split_on_exec(rest, ',');
    let ghost ps = split_on(rest@, ',');
    let mut i: usize = 0;
    proof {
        assert(ps.take(0) =~= Seq::<Seq<char>>::empty());
        assert(strs(list@) =~= strs(old(list)@) + clean_items(ps.take(0)));
    }
    while i < pieces.len()
        invariant
            i <= pieces.len(),
            views(pieces@) == ps,
            strs(list@) == strs(old(list)@) + clean_items(ps.take(i as int)),
        decreases pieces.len() - i,
    {
        let c = clean_item_exec(pieces[i].as_slice());
        proof {
            assert(ps[i as int] == pieces@[i as int]@);
            assert(ps.take(i + 1).drop_last() =~= ps.take(i as int));
        }
        if c.len() > 0 {
            let ghost l0 = list@;
            list.push(string_of(c.as_slice()));
            proof {
                assert(strs(list@) =~= strs(l0).push(c@));
            }
        }
        i += 1;
    }
    proof {
        assert(ps.take(pieces.len() as int) =~= ps);
    }
}

/// The fields held by the given values.
pub open spec fn fields_of(
    required: Seq<String>,
    optional: Seq<String>,
    output_format: String,
    file_prefix: String,
    creation_prompt: String,
    repair_prompt: String,
    review_criteria: Seq<String>,
    review_prompt: String,
    auto_repair: bool,
) -> SectionFields {
    SectionFields {
        required: strs(required),
        optional: strs(optional),
        output_format: output_format@,
        file_prefix: file_prefix@,
        creation_prompt: creation_prompt@,
        repair_prompt: repair_prompt@,
        review_criteria: strs(review_criteria),
        review_prompt: review_prompt@,
        auto_repair,
    }
}

fn input_section(ls: &Vec<Vec<char>>, required: &mut Vec<String>, optional: &mut Vec<String>)
    ensures
        forall|f: SectionFields|
            f.required == strs(old(required)@) && f.optional == strs(old(optional)@)
            ==> input_scan(f, views(ls@)) == (SectionFields {
                required: strs(final(required)@),
                optional: strs(final(optional)@),
                ..f
            }),
{
    let ghost lv = views(ls@);
    let ghost r0 = strs(required@);
    let ghost o0 = strs(optional@);
    let mut i: usize = 0;
    proof {
        assert(lv.take(0) =~= Seq::<Seq<char>>::empty());
    }
    while i < ls.len()
        invariant
            i <= ls.len(),
            lv == views(ls@),
            forall|f: SectionFields|
                f.required == r0 && f.optional == o0
                ==> input_scan(f, lv.take(i as int)) == (SectionFields {
                    required: strs(required@),
                    optional: strs(optional@),
                    ..f
                }),
        decreases ls.len() - i,
    {
        let line = ls[i].as_slice();
        proof {
            assert(lv[i as int] == line@);
            assert(lv.take(i + 1).drop_last() =~= lv.take(i as int));
            reveal_strlit("Required");
            reveal_strlit("Optional");
        }
        let req_word = chars_of("Required");
        let opt_word = chars_of("Optional");
        let ghost rq = strs(required@);
        let ghost op = strs(optional@);
        if contains_exec(line, req_word.as_slice()) {
            match second_field_exec(line, ':') {
                Some(rest) => append_items(required, rest.as_slice()),
                None => {},
            }
        } else if contains_exec(line, opt_word.as_slice()) {
            match second_field_exec(line, ':') {
                Some(rest) => append_items(optional, rest.as_slice()),
                None => {},
            }
        }
        proof {
            assert forall|f: SectionFields| f.required == r0 && f.optional == o0 implies
                input_scan(f, lv.take(i + 1)) == (SectionFields {
                    required: strs(required@),
                    optional: strs(optional@),
                    ..f
                }) by {
                assert(input_scan(f, lv.take(i as int)) == (SectionFields { required: rq, optional: op, ..f }));
                assert(input_scan(f, lv.take(i + 1)) == input_step(input_scan(f, lv.take(i as int)), line@));
            }
        }
        i += 1;
    }
    proof {
        assert(lv.take(ls.len() as int) =~= lv);
    }
}

fn output_section(ls: &Vec<Vec<char>>, output_format: &mut String, file_prefix: &mut String)
    ensures
        forall|f: SectionFields|
            f.output_format == old(output_format)@ && f.file_prefix == old(file_prefix)@
            ==> output_scan(f, views(ls@)) == (SectionFields {
                output_format: final(output_format)@,
                file_prefix: final(file_prefix)@,
                ..f
            }),
{
    let ghost lv = views(ls@);
    let ghost a0 = output_format@;
    let ghost b0 = file_prefix@;
    let mut i: usize = 0;
    proof {
        assert(lv.take(0) =~= Seq::<Seq<char>>::empty());
    }
    while i < ls.len()
        invariant
            i <= ls.len(),
            lv == views(ls@),
            forall|f: SectionFields|
                f.output_format == a0 && f.file_prefix == b0
                ==> output_scan(f, lv.take(i as int)) == (SectionFields {
                    output_format: output_format@,
                    file_prefix: file_prefix@,
                    ..f
                }),
        decreases ls.len() - i,
    {
        let line = ls[i].as_slice();
        proof {
            assert(lv[i as int] == line@);
            assert(lv.take(i + 1).drop_last() =~= lv.take(i as int));
        }
        let format_word = chars_of("Format");
        let prefix_word = chars_of("File Prefix");
        let ghost fa = output_format@;
        let ghost fb = file_prefix@;
        if contains_exec(line, format_word.as_slice()) {
            match second_field_exec(line, ':') {
                Some(v) => {
                    let t = trim_chars(v.as_slice());
                    *output_format = string_of(t.as_slice());
                },
                None => {},
            }
        } else if contains_exec(line, prefix_word.as_slice()) {
            match second_field_exec(line, ':') {
                Some(v) => {
                    let t = clean_item_exec(v.as_slice());
                    *file_prefix = string_of(t.as_slice());
                },
                None => {},
            }
        }
        proof {
            assert forall|f: SectionFields| f.output_format == a0 && f.file_prefix == b0 implies
                output_scan(f, lv.take(i + 1)) == (SectionFields {
                    output_format: output_format@,
                    file_prefix: file_prefix@,
                    ..f
                }) by {
                assert(output_scan(f, lv.take(i as int)) == (SectionFields { output_format: fa, file_prefix: fb, ..f }));
                assert(output_scan(f, lv.take(i + 1)) == output_step(output_scan(f, lv.take(i as int)), line@));
            }
        }
        i += 1;
    }
    proof {
        assert(lv.take(ls.len() as int) =~= lv);
    }
}


fn review_section(ls: &Vec<Vec<char>>, auto0: bool) -> (r: (Vec<String>, Vec<char>, bool))
    ensures
        ({
            let sc = review_scan(
                ReviewScan {
                    in_criteria: false,
                    in_prompt: false,
                    criteria: seq![],
                    prompt_buf: seq![],
                    auto_repair: auto0,
                },
                views(ls@),
            );
            strs(r.0@) == sc.criteria && r.1@ == sc.prompt_buf && r.2 == sc.auto_repair
        }),
{
    let ghost lv = views(ls@);
    let ghost init = ReviewScan {
        in_criteria: false,
        in_prompt: false,
        criteria: seq![],
        prompt_buf: seq![],
        auto_repair: auto0,
    };
    let mut in_criteria = false;
    let mut in_prompt = false;
    let mut criteria: Vec<String> = Vec::new();
    let mut prompt_buf: Vec<char> = Vec::new();
    let mut auto = auto0;
    let mut i: usize = 0;
    proof {
        assert(lv.take(0) =~= Seq::<Seq<char>>::empty());
        assert(strs(criteria@) =~= seq![]);
    }
    while i < ls.len()
        invariant
            i <= ls.len(),
            lv == views(ls@),
            review_scan(init, lv.take(i as int)) == (ReviewScan {
                in_criteria,
                in_prompt,
                criteria: strs(criteria@),
                prompt_buf: prompt_buf@,
                auto_repair: auto,
            }),
        decreases ls.len() - i,
    {
        let line = ls[i].as_slice();
        proof {
            assert(lv[i as int] == line@);
            assert(lv.take(i + 1).drop_last() =~= lv.take(i as int));
            reveal_strlit("- ");
        }
        let w_criteria = chars_of("审查标准");
        let w_prompt = chars_of("Review Prompt");
        let w_format = chars_of("输出格式");
        let w_auto = chars_of("Auto Repair");
        let w_true = chars_of("true");
        let w_item = chars_of("- ");
        let ghost c0 = criteria@;
        let ghost p0 = prompt_buf@;
        if contains_exec(line, w_criteria.as_slice()) {
            in_criteria = true;
            in_prompt = false;
        } else if contains_exec(line, w_prompt.as_slice()) {
            in_prompt = true;
            in_criteria = false;
        } else if contains_exec(line, w_format.as_slice()) || contains_exec(line, w_auto.as_slice()) {
            in_criteria = false;
            in_prompt = false;
            if contains_exec(line, w_auto.as_slice()) {
                if contains_exec(line, w_true.as_slice()) {
                    auto = true;
                }
            }
        } else if in_criteria && starts_with_exec(line, w_item.as_slice()) {
            let rest = slice_from(line, 2);
            let c = trim_chars(rest.as_slice());
            if c.len() > 0 {
                criteria.push(string_of(c.as_slice()));
                proof {
                    assert(strs(criteria@) =~= strs(c0).push(c@));
                }
            }
        } else if in_prompt {
            crate::text::extend_chars(&mut prompt_buf, line);
            prompt_buf.push('\n');
            proof {
                assert(prompt_buf@ =~= p0 + line@ + seq!['\n']);
            }
        }
        i += 1;
    }
    proof {
        assert(lv.take(ls.len() as int) =~= lv);
    }
    (criteria, prompt_buf, auto)
}

/// Applies one section of a skill file to the fields it sets: `输入`
/// (inputs), `输出` (format and file prefix), `Prompt: Creation`,
/// `Prompt: Repair` and `Review`; any other section changes nothing.
pub fn process_section(
    section: &str,
    content: &str,
    required_input: &mut Vec<String>,
    optional_input: &mut Vec<String>,
    output_format: &mut String,
    file_prefix: &mut String,
    creation_prompt: &mut String,
    repair_prompt: &mut String,
    review_criteria: &mut Vec<String>,
    review_prompt: &mut String,
    auto_repair: &mut bool,
)
    ensures
        fields_of(
            final(required_input)@,
            final(optional_input)@,
            *final(output_format),
            *final(file_prefix),
            *final(creation_prompt),
            *final(repair_prompt),
            final(review_criteria)@,
            *final(review_prompt),
            *final(auto_repair),
        ) == section_effect(
            section@,
            content@,
            fields_of(
                old(required_input)@,
                old(optional_input)@,
                *old(output_format),
                *old(file_prefix),
                *old(creation_prompt),
                *old(repair_prompt),
                old(review_criteria)@,
                *old(review_prompt),
                *old(auto_repair),
            ),
        ),
{
    let ghost f0 = fields_of(
        required_input@,
        optional_input@,
        *output_format,
        *file_prefix,
        *creation_prompt,
        *repair_prompt,
        review_criteria@,
        *review_prompt,
        *auto_repair,
    );
    let c = chars_of(content);
    if str_eq(section, "输入") {
        let ls = lines_exec(c.as_slice());
        input_section(&ls, required_input, optional_input);
    } else if str_eq(section, "输出") {
        let ls = lines_exec(c.as_slice());
        output_section(&ls, output_format, file_prefix);
    } else if str_eq(section, "Prompt: Creation") {
        let t = trim_chars(c.as_slice());
        *creation_prompt = string_of(t.as_slice());
    } else if str_eq(section, "Prompt: Repair") {
        let t = trim_chars(c.as_slice());
        *repair_prompt = string_of(t.as_slice());
    } else if str_eq(section, "Review") {
        let ls = lines_exec(c.as_slice());
        let (crit, buf, auto) = review_section(&ls, *auto_repair);
        let t = trim_chars(buf.as_slice());
        *review_criteria = crit;
        *review_prompt = string_of(t.as_slice());
        *auto_repair = auto;
    }
}


/// Why a Markdown skill file could not be read.
#[derive(Debug, Clone, Copy, PartialEq, Eq, Structural)]
pub enum MarkdownSkillError {
    /// The file sets no `**Name**`.
    MissingName,
}

/// The state held by the given values.
pub open spec fn scan_of(
    name: String,
    version: String,
    stage: String,
    category: String,
    depends_on: Seq<String>,
    description: Seq<char>,
    current_section: Seq<char>,
    section_content: Seq<char>,
    fields: SectionFields,
) -> MdScan {
    MdScan {
        name: name@,
        version: version@,
        stage: stage@,
        category: category@,
        depends_on: strs(depends_on),
        description,
        current_section,
        section_content,
        fields,
    }
}

/// The pieces of a comma-separated list, each cleaned as a list item.
fn cleaned_pieces(v: &[char]) -> (r: Vec<String>)
    ensures
        strs(r@) == split_on(v@, ',').map_values(|p: Seq<char>| clean_item(p)),
{
    let pieces = split_on_exec(v, ',');
    let ghost ps = split_on(v@, ',');
    let mut r: Vec<String> = Vec::new();
    let mut i: usize = 0;
    while i < pieces.len()
        invariant
            i <= pieces.len(),
            views(pieces@) == ps,
            strs(r@) == ps.take(i as int).map_values(|p: Seq<char>| clean_item(p)),
        decreases pieces.len() - i,
    {
        let t = clean_item_exec(pieces[i].as_slice());
        let ghost r0 = r@;
        r.push(string_of(t.as_slice()));
        proof {
            assert(ps[i as int] == pieces@[i as int]@);
            assert(strs(r@) =~= strs(r0).push(t@));
            assert(ps.take(i + 1) =~= ps.take(i as int).push(ps[i as int]));
            assert(ps.take(i + 1).map_values(|p: Seq<char>| clean_item(p)) =~= ps.take(i as int).map_values(
                |p: Seq<char>| clean_item(p),
            ).push(clean_item(ps[i as int])));
        }
        i += 1;
    }
    proof {
        assert(ps.take(pieces.len() as int) =~= ps);
    }
    r
}

/// Reads a skill definition written in Markdown: `**Name**`, `**Version**`,
/// `**Stage**`, `**Category**` and `**Depends On**` header lines, a `描述`
/// section for the description and the sections that `process_section`
/// reads.  Fails exactly when no name is set.
pub fn parse_markdown_skill(content: &str) -> (r: Result<SkillDefinition, MarkdownSkillError>)
    ensures
        match r {
            Ok(d) => md_read(content@).name.len() > 0 && describes(d, md_read(content@)),
            Err(e) => md_read(content@).name.len() == 0 && e == MarkdownSkillError::MissingName,
        },
{
    let c = chars_of(content);
    let ls = lines_exec(c.as_slice());
    let ghost lv = views(ls@);
    let mut name = String::new();
    let mut version = String::from_str("1.0");
    let mut stage = String::new();
    let mut category = String::new();
    let mut depends_on: Vec<String> = Vec::new();
    let mut description: Vec<char> = Vec::new();
    let mut required_input: Vec<String> = Vec::new();
    let mut optional_input: Vec<String> = Vec::new();
    let mut output_format = String::from_str("markdown");
    let mut file_prefix = String::new();
    let mut creation_prompt = String::new();
    let mut repair_prompt = String::new();
    let mut review_criteria: Vec<String> = Vec::new();
    let mut review_prompt = String::new();
    let mut auto_repair = false;
    let mut current_section: Vec<char> = Vec::new();
    let mut section_content: Vec<char> = Vec::new();
    let mut i: usize = 0;
    proof {
        assert(lv.take(0) =~= Seq::<Seq<char>>::empty());
        assert(strs(depends_on@) =~= seq![]);
        assert(strs(required_input@) =~= seq![]);
        assert(strs(optional_input@) =~= seq![]);
        assert(strs(review_criteria@) =~= seq![]);
        assert(md_scan(lv.take(0)) =~= md_init());
    }
    while i < ls.len()
        invariant
            i <= ls.len(),
            lv == views(ls@),
            lv == lines(content@),
            md_scan(lv.take(i as int)) == scan_of(
                name,
                version,
                stage,
                category,
                depends_on@,
                description@,
                current_section@,
                section_content@,
                fields_of(
                    required_input@,
                    optional_input@,
                    output_format,
                    file_prefix,
                    creation_prompt,
                    repair_prompt,
                    review_criteria@,
                    review_prompt,
                    auto_repair,
                ),
            ),
        decreases ls.len() - i,
    {
        let line = ls[i].as_slice();
        let ghost st0 = md_scan(lv.take(i as int));
        proof {
            assert(lv[i as int] == line@);
            assert(lv.take(i + 1).drop_last() =~= lv.take(i as int));
            assert(md_scan(lv.take(i + 1)) == md_step(st0, line@));
            reveal_strlit("## ");
        }
        let w_title = chars_of("# Skill:");
        let w_title_wide = chars_of("# Skill：");
        let w_section = chars_of("## ");
        let w_name = chars_of("**Name**:");
        let w_version = chars_of("**Version**:");
        let w_stage = chars_of("**Stage**:");
        let w_category = chars_of("**Category**:");
        let w_depends = chars_of("**Depends On**:");
        let line_text = string_of(line);
        if starts_with_exec(line, w_title.as_slice()) || starts_with_exec(line, w_title_wide.as_slice()) {
        } else if starts_with_exec(line, w_section.as_slice()) {
            if current_section.len() > 0 {
                let sec = string_of(current_section.as_slice());
                let body = string_of(section_content.as_slice());
                process_section(
                    sec.as_str(),
                    body.as_str(),
                    &mut required_input,
                    &mut optional_input,
                    &mut output_format,
                    &mut file_prefix,
                    &mut creation_prompt,
                    &mut repair_prompt,
                    &mut review_criteria,
                    &mut review_prompt,
                    &mut auto_repair,
                );
            }
            let rest = slice_from(line, 3);
            current_section = trim_chars(rest.as_slice());
            section_content = Vec::new();
        } else if starts_with_exec(line, w_name.as_slice()) {
            name = extract_inline_value(line_text.as_str());
        } else if starts_with_exec(line, w_version.as_slice()) {
            version = extract_inline_value(line_text.as_str());
        } else if starts_with_exec(line, w_stage.as_slice()) {
            stage = extract_inline_value(line_text.as_str());
        } else if starts_with_exec(line, w_category.as_slice()) {
            category = extract_inline_value(line_text.as_str());
        } else if starts_with_exec(line, w_depends.as_slice()) {
            let val = extract_inline_value(line_text.as_str());
            if !str_eq(val.as_str(), "none") && val.as_str().unicode_len() > 0 {
                let vc = chars_of(val.as_str());
                depends_on = cleaned_pieces(vc.as_slice());
            }
        } else if crate::text::text_is(current_section.as_slice(), "描述") {
            if line.len() > 0 {
                let ghost d0 = description@;
                crate::text::extend_chars(&mut description, line);
                description.push(' ');
                proof {
                    assert(description@ =~= d0 + line@ + seq![' ']);
                }
            }
        } else if current_section.len() > 0 {
            let ghost s0 = section_content@;
            crate::text::extend_chars(&mut section_content, line);
            section_content.push('\n');
            proof {
                assert(section_content@ =~= s0 + line@ + seq!['\n']);
            }
        }
        proof {
            assert(md_step(st0, line@) == scan_of(
                name,
                version,
                stage,
                category,
                depends_on@,
                description@,
                current_section@,
                section_content@,
                fields_of(
                    required_input@,
                    optional_input@,
                    output_format,
                    file_prefix,
                    creation_prompt,
                    repair_prompt,
                    review_criteria@,
                    review_prompt,
                    auto_repair,
                ),
            ));
        }
        i += 1;
    }
    proof {
        assert(lv.take(ls.len() as int) =~= lv);
    }
    if current_section.len() > 0 {
        let sec = string_of(current_section.as_slice());
        let body = string_of(section_content.as_slice());
        process_section(
            sec.as_str(),
            body.as_str(),
            &mut required_input,
            &mut optional_input,
            &mut output_format,
            &mut file_prefix,
            &mut creation_prompt,
            &mut repair_prompt,
            &mut review_criteria,
            &mut review_prompt,
            &mut auto_repair,
        );
    }
    if name.as_str().unicode_len() == 0 {
        return Err(MarkdownSkillError::MissingName);
    }
    let desc = trim_chars(description.as_slice());
    let has_review = review_criteria.len() > 0 || review_prompt.as_str().unicode_len() > 0;
    let review = if has_review {
        let prompt = if review_prompt.as_str().unicode_len() == 0 {
            None
        } else {
            Some(review_prompt)
        };
        Some(SkillReview { criteria: review_criteria, prompt, auto_repair })
    } else {
        None
    };
    Ok(SkillDefinition {
        skill: SkillMeta {
            name,
            description: string_of(desc.as_slice()),
            version,
            stage,
            category,
            depends_on,
        },
        input: SkillInput { required: required_input, optional: optional_input },
        output: SkillOutput { format: output_format, file_prefix },
        prompt: SkillPrompt { creation: creation_prompt, repair: repair_prompt },
        review,
    })
}


/// The kinds of skill files.
#[derive(Debug, Clone, Copy, PartialEq, Eq, Structural)]
pub enum SkillFileKind {
    Toml,
    Markdown,
    Other,
}

/// The extension of a file name, as `Path::extension` reads it: the text
/// after the last `.`, none when there is no `.` or the only one starts
/// the name.
pub open spec fn file_extension_of(name: Seq<char>) -> Option<Seq<char>> {
    match crate::text::last_index_of(name, '.') {
        Some(k) => if k == 0 { None } else { Some(name.skip(k + 1)) },
        None => None,
    }
}

/// The kind of a skill file, by the extension of its name.
pub open spec fn skill_file_kind_of(name: Seq<char>) -> SkillFileKind {
    match file_extension_of(name) {
        Some(e) => if e == "toml"@ {
            SkillFileKind::Toml
        } else if e == "md"@ {
            SkillFileKind::Markdown
        } else {
            SkillFileKind::Other
        },
        None => SkillFileKind::Other,
    }
}

/// The kind of a skill file: TOML or Markdown by its extension; other
/// files are not skills.
pub fn skill_file_kind(file_name: &str) -> (r: SkillFileKind)
    ensures
        r == skill_file_kind_of(file_name@),
{
    let n = chars_of(file_name);
    match crate::text::last_index_of_exec(n.as_slice(), '.') {
        Some(k) => {
            proof {
                crate::text::lemma_last_index_of_facts(n@, '.');
            }
            if k == 0 {
                SkillFileKind::Other
            } else {
                assert(k < n.len());
                let e = crate::text::slice_from(n.as_slice(), k + 1);
                if crate::text::text_is(e.as_slice(), "toml") {
                    SkillFileKind::Toml
                } else if crate::text::text_is(e.as_slice(), "md") {
                    SkillFileKind::Markdown
                } else {
                    SkillFileKind::Other
                }
            }
        },
        None => SkillFileKind::Other,
    }
}

impl SkillRegistry {
    /// Reads a Markdown skill and registers it (replacing a skill of the same
    /// name); returns its name, or why it could not be read.
    pub fn load_skill_md_text(&mut self, content: &str) -> (r: Result<String, MarkdownSkillError>)
        requires
            old(self).wf(),
        ensures
            final(self).wf(),
            final(self).history() == old(self).history(),
            match r {
                Ok(name) => md_read(content@).name.len() > 0 && name@ == md_read(content@).name
                    && (lookup(final(self).skill_list(), name@) matches Some(d) && describes(d, md_read(content@)))
                    && forall|n: Seq<char>| n != name@ ==> lookup(final(self).skill_list(), n) == lookup(old(self).skill_list(), n),
                Err(e) => md_read(content@).name.len() == 0 && e == MarkdownSkillError::MissingName
                    && final(self).skill_list() == old(self).skill_list(),
            },
    {
        match parse_markdown_skill(content) {
            Ok(d) => {
                let name = d.skill.name.clone();
                self.register(d);
                Ok(name)
            },
            Err(e) => Err(e),
        }
    }
}

} // verus!

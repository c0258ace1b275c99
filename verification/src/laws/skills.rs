//! What a `SKILL.md` gives, and what the model is told of skills.
use vstd::prelude::*;

use crate::error::ErrorModel;
use crate::json::JsonModel;
use crate::skills::{
    advertisement, discovered, field_value, fields, global_dir_of, project_dir_of, scanned_all,
    skill_md, skill_named, used, without_name, SkillFolderModel, SkillModel,
};
use crate::text::{
    find_in, has_prefix, is_space, lemma_find_from, lemma_index_of_char,
    lemma_index_of_char_unique, lines_of, occurs_at, occurs_in, trim_start_char_of, trim_start_of,
};

verus! {

/// A text with frontmatter: dashes, the frontmatter, the line that closes it, and the rest.
pub open spec fn fronted(front: Seq<char>, rest: Seq<char>) -> Seq<char> {
    "---"@ + front + "\n---"@ + rest
}

/// The frontmatter is not closed before its end.
pub open spec fn closes_at_end(front: Seq<char>, rest: Seq<char>) -> bool {
    forall|j: int| 0 <= j < front.len() ==> !occurs_at(front + "\n---"@ + rest, "\n---"@, j)
}

proof fn lemma_fronted(front: Seq<char>, rest: Seq<char>, fallback: Seq<char>)
    requires
        closes_at_end(front, rest),
    ensures
        skill_md(fronted(front, rest), fallback).0 == fields(lines_of(front), fallback).0,
        skill_md(fronted(front, rest), fallback).1 == fields(lines_of(front), fallback).1,
        skill_md(fronted(front, rest), fallback).2 == trim_start_of(trim_start_char_of(rest, '-')),
{
    reveal_strlit("---");
    reveal_strlit("\n---");
    let text = fronted(front, rest);
    let after = front + "\n---"@ + rest;
    assert(text.subrange(0, 3) =~= "---"@);
    assert(occurs_at(text, "---"@, 0));
    assert(text.skip(3) =~= after);
    assert(after.subrange(front.len() as int, front.len() as int + 4) =~= "\n---"@);
    assert(occurs_at(after, "\n---"@, front.len() as int));
    lemma_find_from(after, "\n---"@, 0);
    assert(find_in(after, "\n---"@) == Some(front.len() as int));
    assert(after.take(front.len() as int) =~= front);
    assert(after.skip(front.len() as int + 4) =~= rest);
}

/// Where the frontmatter is closed, the body is all that stands behind the closing dashes,
/// but for further dashes and then blanks: the text ends with the body, and nothing between
/// the closing line and the body is lost but these.
pub proof fn law_body_is_the_rest(front: Seq<char>, rest: Seq<char>, fallback: Seq<char>)
    requires
        closes_at_end(front, rest),
    ensures
        ({
            let body = skill_md(fronted(front, rest), fallback).2;
            let k = rest.len() - body.len();
            let d = rest.len() - trim_start_char_of(rest, '-').len();
            &&& 0 <= d <= k <= rest.len()
            &&& body == rest.skip(k)
            &&& forall|j: int| 0 <= j < d ==> #[trigger] rest[j] == '-'
            &&& forall|j: int| d <= j < k ==> is_space(#[trigger] rest[j])
            &&& body.len() > 0 ==> !is_space(body[0])
            &&& d < rest.len() ==> rest[d] != '-'
        }),
{
    lemma_fronted(front, rest, fallback);
    crate::laws::text::law_trim_start_char(rest, '-');
    let m = trim_start_char_of(rest, '-');
    crate::laws::text::law_trim_start(m);
    let body = trim_start_of(m);
    let k = rest.len() - body.len();
    let d = rest.len() - m.len();
    assert(body =~= rest.skip(k));
    assert forall|j: int| d <= j < k implies is_space(#[trigger] rest[j]) by {
        assert(m[j - d] == rest[j]);
    }
    if d < rest.len() {
        assert(m[0] == rest[d]);
    }
}

/// A body that starts with neither a dash nor a blank comes through whole, whatever it
/// holds.
pub proof fn law_body_comes_through(front: Seq<char>, body: Seq<char>, fallback: Seq<char>)
    requires
        closes_at_end(front, "\n"@ + body),
        body.len() > 0,
        !is_space(body[0]),
    ensures
        skill_md(fronted(front, "\n"@ + body), fallback).2 == body,
{
    reveal_strlit("\n");
    let rest = "\n"@ + body;
    law_body_is_the_rest(front, rest, fallback);
    let b = skill_md(fronted(front, rest), fallback).2;
    let k = rest.len() - b.len();
    let d = rest.len() - trim_start_char_of(rest, '-').len();
    if d > 0 {
        assert(rest[0] == '-');
    }
    if k > 1 {
        assert(is_space(rest[1]));
    }
    if k < 1 {
        assert(b[0] == rest[0]);
    }
    assert(rest.skip(1) =~= body);
}

/// A text without frontmatter, or with one that is never closed, is all body, but for the
/// white space around it, under the name of its folder.
pub proof fn law_plain_text(text: Seq<char>, fallback: Seq<char>)
    requires
        !has_prefix(text, "---"@) || !occurs_in(text.skip("---"@.len() as int), "\n---"@),
    ensures
        skill_md(text, fallback) == (fallback, Seq::<char>::empty(), crate::text::trim_of(text)),
{
    crate::text::lemma_occurs_in(text.skip("---"@.len() as int), "\n---"@);
}

proof fn lemma_one_more_line(before: Seq<char>, line: Seq<char>)
    requires
        line.len() > 0,
        forall|i: int| 0 <= i < line.len() ==> line[i] != '\n',
    ensures
        lines_of(before.push('\n') + line) == lines_of(before.push('\n')).push(line),
    decreases before.len(),
{
    let a = before.push('\n');
    let s = a + line;
    lemma_index_of_char(a, '\n');
    let i = crate::text::index_of_char(a, '\n');
    assert(a[before.len() as int] == '\n');
    assert forall|j: int| 0 <= j < i implies s[j] != '\n' by {
        assert(s[j] == a[j]);
    }
    assert(s[i] == a[i]);
    lemma_index_of_char_unique(s, '\n', i);
    assert(s.take(i) =~= a.take(i));
    let rest = a.skip(i + 1);
    assert(s.skip(i + 1) =~= rest + line);
    if rest.len() == 0 {
        assert(rest + line =~= line);
        crate::laws::text::law_last_line(line);
        assert(lines_of(rest) =~= Seq::empty());
        assert(lines_of(s) =~= lines_of(a).push(line));
    } else {
        assert(rest =~= rest.drop_last().push('\n'));
        lemma_one_more_line(rest.drop_last(), line);
        assert(lines_of(s) =~= lines_of(a).push(line));
    }
}

/// A value without blanks and quotes around it.
pub open spec fn plain_value(v: Seq<char>) -> bool {
    &&& v.len() > 0
    &&& !is_space(v[0]) && !is_space(v.last())
    &&& v[0] != '"' && v.last() != '"'
    &&& forall|i: int| 0 <= i < v.len() ==> v[i] != '\n'
}

proof fn lemma_value(v: Seq<char>)
    requires
        plain_value(v),
    ensures
        field_value(seq![' '] + v) == v,
        field_value(seq![' ', '"'] + v + seq!['"']) == v,
{
    let a = seq![' '] + v;
    assert(is_space(' '));
    assert(!is_space('"'));
    assert(a.skip(1) =~= v);
    assert(trim_start_of(v) == v);
    assert(trim_start_of(a) == v);
    let q = seq!['"'] + v + seq!['"'];
    let b = seq![' ', '"'] + v + seq!['"'];
    assert(b.skip(1) =~= q);
    assert(trim_start_of(q) == q);
    assert(trim_start_of(b) == q);
    assert(q.skip(1) =~= v + seq!['"']);
    let r = v + seq!['"'];
    assert(r[0] == v[0]);
    assert(trim_start_char_of(r, '"') == r);
    assert(trim_start_char_of(q, '"') == r);
    assert(r.drop_last() =~= v);
    assert(crate::text::trim_end_char_of(v, '"') == v);
    assert(crate::text::trim_end_char_of(r, '"') == v);
}

/// The last `name:` line of the frontmatter names the skill, with or without quotes.
pub proof fn law_name_is_read(
    before: Seq<char>,
    v: Seq<char>,
    rest: Seq<char>,
    fallback: Seq<char>,
)
    requires
        plain_value(v),
    ensures
        ({
            let front = before.push('\n') + "name:"@ + (seq![' '] + v);
            closes_at_end(front, rest) ==> skill_md(fronted(front, rest), fallback).0 == v
        }),
        ({
            let front = before.push('\n') + "name:"@ + (seq![' ', '"'] + v + seq!['"']);
            closes_at_end(front, rest) ==> skill_md(fronted(front, rest), fallback).0 == v
        }),
{
    reveal_strlit("name:");
    lemma_value(v);
    lemma_named_line(before, "name:"@, seq![' '] + v, rest, fallback);
    lemma_named_line(before, "name:"@, seq![' ', '"'] + v + seq!['"'], rest, fallback);
}

/// The last `description:` line of the frontmatter describes the skill, with or without
/// quotes.
pub proof fn law_description_is_read(
    before: Seq<char>,
    v: Seq<char>,
    rest: Seq<char>,
    fallback: Seq<char>,
)
    requires
        plain_value(v),
    ensures
        ({
            let front = before.push('\n') + "description:"@ + (seq![' '] + v);
            closes_at_end(front, rest) ==> skill_md(fronted(front, rest), fallback).1 == v
        }),
        ({
            let front = before.push('\n') + "description:"@ + (seq![' ', '"'] + v + seq!['"']);
            closes_at_end(front, rest) ==> skill_md(fronted(front, rest), fallback).1 == v
        }),
{
    reveal_strlit("name:");
    reveal_strlit("description:");
    lemma_value(v);
    lemma_named_line(before, "description:"@, seq![' '] + v, rest, fallback);
    lemma_named_line(before, "description:"@, seq![' ', '"'] + v + seq!['"'], rest, fallback);
    let l = "description:"@ + (seq![' '] + v);
    let m = "description:"@ + (seq![' ', '"'] + v + seq!['"']);
    if has_prefix(l, "name:"@) {
        assert(l.subrange(0, 5)[0] == 'd');
    }
    if has_prefix(m, "name:"@) {
        assert(m.subrange(0, 5)[0] == 'd');
    }
}

proof fn lemma_named_line(
    before: Seq<char>,
    key: Seq<char>,
    value: Seq<char>,
    rest: Seq<char>,
    fallback: Seq<char>,
)
    requires
        key.len() > 0,
        forall|i: int| 0 <= i < key.len() ==> key[i] != '\n',
        forall|i: int| 0 <= i < value.len() ==> value[i] != '\n',
    ensures
        ({
            let front = before.push('\n') + key + value;
            let lines = lines_of(before.push('\n'));
            &&& has_prefix(key + value, key)
            &&& (key + value).skip(key.len() as int) == value
            &&& closes_at_end(front, rest) ==> skill_md(fronted(front, rest), fallback).0 == fields(
                lines.push(key + value),
                fallback,
            ).0
            &&& closes_at_end(front, rest) ==> skill_md(fronted(front, rest), fallback).1 == fields(
                lines.push(key + value),
                fallback,
            ).1
            &&& lines.push(key + value).drop_last() == lines
            &&& lines.push(key + value).last() == key + value
        }),
{
    let line = key + value;
    let front = before.push('\n') + key + value;
    assert(front =~= before.push('\n') + line);
    assert(line.subrange(0, key.len() as int) =~= key);
    assert(line.skip(key.len() as int) =~= value);
    lemma_one_more_line(before, line);
    let lines = lines_of(before.push('\n'));
    assert(lines.push(line).drop_last() =~= lines);
    if closes_at_end(front, rest) {
        lemma_fronted(front, rest, fallback);
    }
}

/// Each line of the frontmatter says one thing: a line that names leaves the description, a
/// line that describes leaves the name, and any other line leaves both. Without lines the
/// folder names the skill, and nothing describes it.
pub proof fn law_lines_say_one_thing(lines: Seq<Seq<char>>, line: Seq<char>, fallback: Seq<char>)
    ensures
        fields(Seq::empty(), fallback) == (fallback, Seq::<char>::empty()),
        has_prefix(line, "name:"@) ==> fields(lines.push(line), fallback).1 == fields(
            lines,
            fallback,
        ).1,
        has_prefix(line, "description:"@) ==> fields(lines.push(line), fallback).0 == fields(
            lines,
            fallback,
        ).0,
        !has_prefix(line, "name:"@) && !has_prefix(line, "description:"@) ==> fields(
            lines.push(line),
            fallback,
        ) == fields(lines, fallback),
{
    reveal_strlit("name:");
    reveal_strlit("description:");
    assert(lines.push(line).drop_last() =~= lines);
    if has_prefix(line, "name:"@) && has_prefix(line, "description:"@) {
        assert(line.subrange(0, 5)[0] == 'n');
        assert(line.subrange(0, 12)[0] == 'd');
    }
}

/// A folder is a skill exactly if it has a `SKILL.md` that can be read: with what that says,
/// and with the folder as its directory.
pub proof fn law_folder_is_a_skill(folder: SkillFolderModel)
    ensures
        folder.skill() is Some <==> folder.text is Some,
        folder.skill() matches Some(s) ==> s.dir == folder.dir && (s.name, s.description, s.body)
            == skill_md(folder.text->Some_0, folder.name),
{
}

/// Every skill has a line in the prompt, with its name and its description, in order.
pub proof fn law_skills_are_advertised(s: Seq<SkillModel>, skill: SkillModel)
    ensures
        advertisement(s.push(skill)) == advertisement(s) + "- "@ + skill.name + ": "@
            + skill.description + "\n"@,
        advertisement(Seq::empty())
            == "Available skills (call use_skill with the name to load full instructions):\n"@,
{
    assert(s.push(skill).drop_last() =~= s);
}

/// A skill that is asked for by name comes with its directory and its whole body; a name
/// that no skill has, and no name at all, are errors.
pub proof fn law_skill_is_handed_out(s: Seq<SkillModel>, args: JsonModel, name: Seq<char>)
    ensures
        args.at("name"@) == JsonModel::Str(name) ==> match used(s, args) {
            Ok(text) => exists|i: int|
                0 <= i < s.len() && (#[trigger] s[i]).name == name && text == "# Skill: "@ + name
                    + "\nDirectory: "@ + s[i].dir + "\n\n"@ + s[i].body,
            Err(e) => e == ErrorModel::Tool("unknown skill '"@ + name + "'"@) && forall|i: int|
                0 <= i < s.len() ==> (#[trigger] s[i]).name != name,
        },
        !(args.at("name"@) is Str) ==> used(s, args) == Err::<Seq<char>, ErrorModel>(
            ErrorModel::Tool("use_skill: missing 'name'"@),
        ),
{
    if args.at("name"@) == JsonModel::Str(name) {
        lemma_found(s, name);
    }
}

proof fn lemma_found(s: Seq<SkillModel>, name: Seq<char>)
    ensures
        match skill_named(s, name) {
            Some(k) => exists|i: int| 0 <= i < s.len() && #[trigger] s[i] == k && k.name == name,
            None => forall|i: int| 0 <= i < s.len() ==> (#[trigger] s[i]).name != name,
        },
    decreases s.len(),
{
    if s.len() > 0 {
        if s[0].name != name {
            let rest = s.skip(1);
            lemma_found(rest, name);
            match skill_named(rest, name) {
                Some(k) => {
                    let i = choose|i: int|
                        0 <= i < rest.len() && #[trigger] rest[i] == k && k.name == name;
                    assert(s[i + 1] == k);
                },
                None => {
                    assert forall|i: int| 0 <= i < s.len() implies (#[trigger] s[i]).name
                        != name by {
                        if i > 0 {
                            assert(rest[i - 1] == s[i]);
                        }
                    }
                },
            }
        } else {
            assert(s[0] == skill_named(s, name)->Some_0);
        }
    }
}

/// The skills of the project stand over the global ones: one that a folder of the project
/// gives is what is found under its name, where no later folder gives that name.
pub proof fn law_project_is_over_global(
    global: Seq<SkillFolderModel>,
    project: Seq<SkillFolderModel>,
    folder: SkillFolderModel,
    skill: SkillModel,
)
    requires
        folder.skill() == Some(skill),
    ensures
        discovered(global, Seq::empty()) == scanned_all(Seq::empty(), global),
        discovered(global, project.push(folder)).contains(skill),
        forall|i: int|
            0 <= i < discovered(global, project.push(folder)).len() ==> (
            #[trigger] discovered(global, project.push(folder))[i]).name == skill.name
                ==> discovered(global, project.push(folder))[i] == skill,
        forall|other: SkillModel|
            other.name != skill.name ==> (#[trigger] discovered(
                global,
                project.push(folder),
            ).contains(other) <==> discovered(global, project).contains(other)),
{
    assert(project.push(folder).drop_last() =~= project);
    let before = discovered(global, project);
    let kept = without_name(before, skill.name);
    lemma_without(before, skill.name);
    let all = kept.push(skill);
    assert(all[kept.len() as int] == skill);
    assert forall|i: int| 0 <= i < all.len() && (#[trigger] all[i]).name == skill.name implies all[i]
        == skill by {
        if i < kept.len() {
            assert(kept[i] == all[i]);
            assert(kept.contains(kept[i]));
        }
    }
    assert forall|other: SkillModel| other.name != skill.name implies (#[trigger] all.contains(
        other,
    ) <==> before.contains(other)) by {
        if kept.contains(other) {
            let k = choose|k: int| 0 <= k < kept.len() && kept[k] == other;
            assert(all[k] == other);
        }
        if all.contains(other) {
            let k = choose|k: int| 0 <= k < all.len() && all[k] == other;
            assert(kept[k] == other);
            assert(kept.contains(other));
        }
    }
}

proof fn lemma_without(s: Seq<SkillModel>, name: Seq<char>)
    ensures
        forall|k: SkillModel|
            #[trigger] without_name(s, name).contains(k) <==> s.contains(k) && k.name != name,
    decreases s.len(),
{
    if s.len() > 0 {
        let t = s.drop_last();
        lemma_without(t, name);
        let w = without_name(t, name);
        assert(s =~= t.push(s.last()));
        assert forall|k: SkillModel|
            #[trigger] without_name(s, name).contains(k) <==> s.contains(k) && k.name != name by {
            lemma_pushed(t, s.last(), k);
            lemma_pushed(w, s.last(), k);
        }
    }
}

proof fn lemma_pushed(s: Seq<SkillModel>, x: SkillModel, n: SkillModel)
    ensures
        s.push(x).contains(n) <==> n == x || s.contains(n),
{
    let p = s.push(x);
    assert(p[s.len() as int] == x);
    if s.contains(n) {
        let k = choose|k: int| 0 <= k < s.len() && s[k] == n;
        assert(p[k] == n);
    }
    if p.contains(n) && n != x {
        let k = choose|k: int| 0 <= k < p.len() && p[k] == n;
        assert(s[k] == n);
    }
}

/// Skills lie below the user's configuration and below the project.
pub proof fn law_skill_dirs(dir: Seq<char>)
    ensures
        global_dir_of(dir) == crate::paths::joined(crate::paths::joined(dir, "ade"@), "skills"@),
        project_dir_of(dir) == crate::paths::joined(crate::paths::joined(dir, ".ade"@), "skills"@),
{
}

} // verus!

use vstd::prelude::*;

use crate::text::{trim, trim_str};

verus! {

/// One voice command: what it is called, what it runs, and the phrases and
/// sounds it has per language. A per-language table is a list of (language,
/// values) entries; a language is looked up at its first entry.
#[derive(Debug, Clone)]
pub struct JCommand {
    pub id: String,
    pub action: String,
    pub description: String,
    pub exe_path: String,
    pub exe_args: Vec<String>,
    pub cli_cmd: String,
    pub cli_args: Vec<String>,
    pub sounds: Vec<(String, Vec<String>)>,
    pub phrases: Vec<(String, Vec<String>)>,
}

/// The commands read from one command file.
#[derive(Debug, Clone)]
pub struct JCommandsList {
    pub path: String,
    pub commands: Vec<JCommand>,
}

/// A per-language table by its characters.
pub ghost struct LocalizedEntry {
    pub lang: Seq<char>,
    pub values: Seq<Seq<char>>,
}

pub open spec fn strings_view(v: Seq<String>) -> Seq<Seq<char>> {
    v.map_values(|s: String| s@)
}

pub open spec fn localized_view(m: Seq<(String, Vec<String>)>) -> Seq<LocalizedEntry> {
    m.map_values(|e: (String, Vec<String>)| LocalizedEntry { lang: e.0@, values: strings_view(e.1@) })
}

/// The values of the first entry for `lang`.
pub open spec fn lookup(m: Seq<LocalizedEntry>, lang: Seq<char>) -> Option<Seq<Seq<char>>>
    decreases m.len(),
{
    if m.len() == 0 {
        None
    } else if m[0].lang == lang {
        Some(m[0].values)
    } else {
        lookup(m.drop_first(), lang)
    }
}

/// The values of the first entry of the table, or nothing for an empty table.
pub open spec fn first_values(m: Seq<LocalizedEntry>) -> Seq<Seq<char>> {
    if m.len() > 0 {
        m[0].values
    } else {
        Seq::empty()
    }
}

/// The values for a language: its own, else English ones, else those of the
/// first entry, else none.
pub open spec fn resolve_localized_spec(m: Seq<LocalizedEntry>, lang: Seq<char>) -> Seq<Seq<char>> {
    match lookup(m, lang) {
        Some(v) => v,
        None => if lang != "en"@ {
            match lookup(m, "en"@) {
                Some(v) => v,
                None => first_values(m),
            }
        } else {
            first_values(m)
        },
    }
}

/// All values of a table, entry after entry.
pub open spec fn all_values(m: Seq<LocalizedEntry>) -> Seq<Seq<char>>
    decreases m.len(),
{
    if m.len() == 0 {
        Seq::empty()
    } else {
        m[0].values + all_values(m.drop_first())
    }
}

/// The training examples of one command: each of its phrases for the
/// language, paired with the command's id.
pub open spec fn command_examples(c: JCommand, lang: Seq<char>) -> Seq<(Seq<char>, Seq<char>)> {
    resolve_localized_spec(localized_view(c.phrases@), lang).map_values(
        |p: Seq<char>| (p, c.id@),
    )
}

/// The training examples of a sequence of commands, in order.
pub open spec fn commands_examples(cs: Seq<JCommand>, lang: Seq<char>) -> Seq<(Seq<char>, Seq<char>)>
    decreases cs.len(),
{
    if cs.len() == 0 {
        Seq::empty()
    } else {
        commands_examples(cs.drop_last(), lang) + command_examples(cs.last(), lang)
    }
}

/// The training examples of a sequence of command files, in order.
pub open spec fn lists_examples(ls: Seq<JCommandsList>, lang: Seq<char>) -> Seq<(Seq<char>, Seq<char>)>
    decreases ls.len(),
{
    if ls.len() == 0 {
        Seq::empty()
    } else {
        lists_examples(ls.drop_last(), lang) + commands_examples(ls.last().commands@, lang)
    }
}

/// Whether command `j` of file `i` has the given id.
pub open spec fn has_id(ls: Seq<JCommandsList>, i: int, j: int, id: Seq<char>) -> bool {
    &&& 0 <= i < ls.len()
    &&& 0 <= j < ls[i].commands@.len()
    &&& ls[i].commands@[j].id@ == id
}

/// Position (file, command) `(i, j)` comes before `(k, l)`.
pub open spec fn before(i: int, j: int, k: int, l: int) -> bool {
    i < k || (i == k && j < l)
}

proof fn lemma_lookup_is_an_entry(m: Seq<LocalizedEntry>, lang: Seq<char>)
    ensures
        lookup(m, lang) matches Some(v) ==> exists|i: int|
            0 <= i < m.len() && (#[trigger] m[i]).lang == lang && m[i].values == v,
    decreases m.len(),
{
    if m.len() > 0 && m[0].lang != lang {
        lemma_lookup_is_an_entry(m.drop_first(), lang);
        if let Some(v) = lookup(m, lang) {
            let i = choose|i: int|
                0 <= i < m.drop_first().len() && (#[trigger] m.drop_first()[i]).lang == lang
                    && m.drop_first()[i].values == v;
            assert(m[i + 1] == m.drop_first()[i]);
        }
    }
}

/// Looking a language up finds its first entry: the values found are those
/// of an entry for the language with no earlier entry for it; nothing is
/// found only when no entry is for it.
pub proof fn lemma_lookup_finds_first_entry(m: Seq<LocalizedEntry>, lang: Seq<char>)
    ensures
        lookup(m, lang) matches Some(v) ==> exists|i: int|
            0 <= i < m.len() && (#[trigger] m[i]).lang == lang && m[i].values == v && forall|j: int|
                0 <= j < i ==> (#[trigger] m[j]).lang != lang,
        lookup(m, lang) is None ==> forall|i: int| 0 <= i < m.len() ==> (#[trigger] m[i]).lang != lang,
    decreases m.len(),
{
    if m.len() > 0 {
        let t = m.drop_first();
        lemma_lookup_finds_first_entry(t, lang);
        if m[0].lang != lang {
            if let Some(v) = lookup(m, lang) {
                let i = choose|i: int|
                    0 <= i < t.len() && (#[trigger] t[i]).lang == lang && t[i].values == v
                        && forall|j: int| 0 <= j < i ==> (#[trigger] t[j]).lang != lang;
                assert(m[i + 1] == t[i]);
                assert forall|j: int| 0 <= j < i + 1 implies (#[trigger] m[j]).lang != lang by {
                    if j > 0 {
                        assert(m[j] == t[j - 1]);
                    }
                }
            } else {
                assert forall|i: int| 0 <= i < m.len() implies (#[trigger] m[i]).lang != lang by {
                    if i > 0 {
                        assert(m[i] == t[i - 1]);
                    }
                }
            }
        } else {
            assert(m[0].lang == lang);
        }
    }
}

/// Whatever the order of the table, the values found for a language are
/// those of one of its entries (its own, English, or another), and nothing
/// only when the table is empty.
pub proof fn lemma_resolved_values_come_from_an_entry(m: Seq<LocalizedEntry>, lang: Seq<char>)
    ensures
        m.len() == 0 ==> resolve_localized_spec(m, lang) == Seq::<Seq<char>>::empty(),
        m.len() > 0 ==> exists|i: int|
            0 <= i < m.len() && (#[trigger] m[i]).values == resolve_localized_spec(m, lang),
        lookup(m, lang) matches Some(v) ==> resolve_localized_spec(m, lang) == v,
        lookup(m, lang) is None ==> (lookup(m, "en"@) matches Some(v) ==> resolve_localized_spec(
            m,
            lang,
        ) == v),
        lookup(m, lang) is None && lookup(m, "en"@) is None && m.len() > 0
            ==> resolve_localized_spec(m, lang) == m[0].values,
{
    lemma_lookup_is_an_entry(m, lang);
    lemma_lookup_is_an_entry(m, "en"@);
    if m.len() > 0 {
        if lookup(m, lang) is None && (lang == "en"@ || lookup(m, "en"@) is None) {
            assert(m[0].values == resolve_localized_spec(m, lang));
        }
    }
}

/// The number of values in a table, over all entries.
pub open spec fn values_count(m: Seq<LocalizedEntry>) -> nat
    decreases m.len(),
{
    if m.len() == 0 {
        0
    } else {
        m[0].values.len() + values_count(m.drop_first())
    }
}

/// `v` stands in `a` as one contiguous part, starting at `off`.
pub open spec fn part_at<A>(a: Seq<A>, v: Seq<A>, off: int) -> bool {
    0 <= off && off + v.len() <= a.len() && a.subrange(off, off + v.len()) == v
}

proof fn lemma_entry_is_a_part(m: Seq<LocalizedEntry>, i: int) -> (off: int)
    requires
        0 <= i < m.len(),
    ensures
        part_at(all_values(m), m[i].values, off),
    decreases i,
{
    let t = m.drop_first();
    let a = all_values(m);
    assert(a == m[0].values + all_values(t));
    if i == 0 {
        assert(a.subrange(0, m[0].values.len() as int) =~= m[0].values);
        0
    } else {
        assert(t[i - 1] == m[i]);
        let off = lemma_entry_is_a_part(t, i - 1);
        let o2 = m[0].values.len() + off;
        assert(a.subrange(o2, o2 + m[i].values.len()) =~= all_values(t).subrange(
            off,
            off + m[i].values.len(),
        ));
        o2
    }
}

/// Entry `i`'s whole list of values stands, as one contiguous part, in all
/// values of the table.
pub open spec fn entry_in_all_values(m: Seq<LocalizedEntry>, i: int) -> bool {
    exists|off: int| part_at(all_values(m), m[i].values, off)
}

/// All values of a table hold every value of every entry, each entry's list
/// whole and in order, and nothing else: their number is the total count,
/// and every entry's list appears as one contiguous part.
pub proof fn lemma_all_values_holds_every_entry(m: Seq<LocalizedEntry>)
    ensures
        all_values(m).len() == values_count(m),
        forall|i: int| 0 <= i < m.len() ==> #[trigger] entry_in_all_values(m, i),
    decreases m.len(),
{
    if m.len() > 0 {
        lemma_all_values_holds_every_entry(m.drop_first());
    }
    assert forall|i: int| 0 <= i < m.len() implies #[trigger] entry_in_all_values(m, i) by {
        let off = lemma_entry_is_a_part(m, i);
    }
}

/// The phrases of a command for a language (own, else English, else the
/// first entry's).
pub open spec fn phrases_for(c: JCommand, lang: Seq<char>) -> Seq<Seq<char>> {
    resolve_localized_spec(localized_view(c.phrases@), lang)
}

/// The examples of a sequence of commands are exactly the pairs of a phrase
/// of one of the commands, for the language, with that command's id.
pub proof fn lemma_commands_examples_are_the_phrases(cs: Seq<JCommand>, lang: Seq<char>)
    ensures
        forall|j: int, k: int|
            0 <= j < cs.len() && 0 <= k < phrases_for(cs[j], lang).len() ==> commands_examples(
                cs,
                lang,
            ).contains((#[trigger] phrases_for(cs[j], lang)[k], cs[j].id@)),
        forall|e: (Seq<char>, Seq<char>)|
            #[trigger] commands_examples(cs, lang).contains(e) ==> exists|j: int, k: int|
                0 <= j < cs.len() && 0 <= k < phrases_for(cs[j], lang).len() && e == (
                    #[trigger] phrases_for(cs[j], lang)[k],
                    cs[j].id@,
                ),
    decreases cs.len(),
{
    if cs.len() > 0 {
        let prev = cs.drop_last();
        let c = cs.last();
        lemma_commands_examples_are_the_phrases(prev, lang);
        let a = commands_examples(prev, lang);
        let b = command_examples(c, lang);
        let r = commands_examples(cs, lang);
        assert(r == a + b);
        assert forall|j: int, k: int|
            0 <= j < cs.len() && 0 <= k < phrases_for(cs[j], lang).len() implies r.contains(
            (#[trigger] phrases_for(cs[j], lang)[k], cs[j].id@),
        ) by {
            if j < cs.len() - 1 {
                assert(prev[j] == cs[j]);
                assert(a.contains((phrases_for(prev[j], lang)[k], prev[j].id@)));
                let n = choose|n: int| 0 <= n < a.len() && a[n] == (phrases_for(prev[j], lang)[k], prev[j].id@);
                assert(r[n] == a[n]);
            } else {
                assert(c == cs[j]);
                assert(b[k] == (phrases_for(c, lang)[k], c.id@));
                assert(r[a.len() + k] == b[k]);
            }
        }
        assert forall|e: (Seq<char>, Seq<char>)| #[trigger] r.contains(e) implies exists|j: int, k: int|
            0 <= j < cs.len() && 0 <= k < phrases_for(cs[j], lang).len() && e == (
                #[trigger] phrases_for(cs[j], lang)[k],
                cs[j].id@,
            ) by {
            let n = choose|n: int| 0 <= n < r.len() && r[n] == e;
            if n < a.len() {
                assert(a[n] == e);
                assert(a.contains(e));
                let (j, k) = choose|j: int, k: int|
                    0 <= j < prev.len() && 0 <= k < phrases_for(prev[j], lang).len() && e == (
                        #[trigger] phrases_for(prev[j], lang)[k],
                        prev[j].id@,
                    );
                assert(prev[j] == cs[j]);
                assert(e == (phrases_for(cs[j], lang)[k], cs[j].id@));
            } else {
                let k = n - a.len();
                assert(b[k] == e);
                assert(cs[cs.len() - 1] == c);
                assert(e == (phrases_for(cs[cs.len() - 1], lang)[k], cs[cs.len() - 1].id@));
            }
        }
    }
}

/// The number of phrases, for the language, of a sequence of commands.
pub open spec fn phrase_count(cs: Seq<JCommand>, lang: Seq<char>) -> nat
    decreases cs.len(),
{
    if cs.len() == 0 {
        0
    } else {
        phrase_count(cs.drop_last(), lang) + phrases_for(cs.last(), lang).len()
    }
}

/// The number of phrases, for the language, of all commands of a sequence of
/// command files.
pub open spec fn files_phrase_count(ls: Seq<JCommandsList>, lang: Seq<char>) -> nat
    decreases ls.len(),
{
    if ls.len() == 0 {
        0
    } else {
        files_phrase_count(ls.drop_last(), lang) + phrase_count(ls.last().commands@, lang)
    }
}

proof fn lemma_commands_examples_count(cs: Seq<JCommand>, lang: Seq<char>)
    ensures
        commands_examples(cs, lang).len() == phrase_count(cs, lang),
    decreases cs.len(),
{
    if cs.len() > 0 {
        lemma_commands_examples_count(cs.drop_last(), lang);
    }
}

/// There is one training example per phrase: as many examples as phrases,
/// for the language, over all commands of all command files.
pub proof fn lemma_one_example_per_phrase(ls: Seq<JCommandsList>, lang: Seq<char>)
    ensures
        lists_examples(ls, lang).len() == files_phrase_count(ls, lang),
    decreases ls.len(),
{
    if ls.len() > 0 {
        lemma_one_example_per_phrase(ls.drop_last(), lang);
        lemma_commands_examples_count(ls.last().commands@, lang);
    }
}

/// The training examples are exactly the pairs of a phrase, for the
/// language, of some command of some command file with that command's id:
/// every such pair is an example, and every example is such a pair.
pub proof fn lemma_training_examples_are_the_phrases(ls: Seq<JCommandsList>, lang: Seq<char>)
    ensures
        forall|i: int, j: int, k: int|
            0 <= i < ls.len() && 0 <= j < ls[i].commands@.len() && 0 <= k < phrases_for(
                ls[i].commands@[j],
                lang,
            ).len() ==> lists_examples(ls, lang).contains(
                (#[trigger] phrases_for(ls[i].commands@[j], lang)[k], ls[i].commands@[j].id@),
            ),
        forall|e: (Seq<char>, Seq<char>)|
            #[trigger] lists_examples(ls, lang).contains(e) ==> exists|i: int, j: int, k: int|
                0 <= i < ls.len() && 0 <= j < ls[i].commands@.len() && 0 <= k < phrases_for(
                    ls[i].commands@[j],
                    lang,
                ).len() && e == (
                    #[trigger] phrases_for(ls[i].commands@[j], lang)[k],
                    ls[i].commands@[j].id@,
                ),
    decreases ls.len(),
{
    if ls.len() > 0 {
        let prev = ls.drop_last();
        let cs = ls.last().commands@;
        lemma_training_examples_are_the_phrases(prev, lang);
        lemma_commands_examples_are_the_phrases(cs, lang);
        let a = lists_examples(prev, lang);
        let b = commands_examples(cs, lang);
        let r = lists_examples(ls, lang);
        assert(r == a + b);
        assert forall|i: int, j: int, k: int|
            0 <= i < ls.len() && 0 <= j < ls[i].commands@.len() && 0 <= k < phrases_for(
                ls[i].commands@[j],
                lang,
            ).len() implies r.contains(
            (#[trigger] phrases_for(ls[i].commands@[j], lang)[k], ls[i].commands@[j].id@),
        ) by {
            let x = (phrases_for(ls[i].commands@[j], lang)[k], ls[i].commands@[j].id@);
            if i < ls.len() - 1 {
                assert(prev[i] == ls[i]);
                assert(a.contains((phrases_for(prev[i].commands@[j], lang)[k], prev[i].commands@[j].id@)));
                let n = choose|n: int| 0 <= n < a.len() && a[n] == x;
                assert(r[n] == a[n]);
            } else {
                assert(cs == ls[i].commands@);
                assert(b.contains((phrases_for(cs[j], lang)[k], cs[j].id@)));
                let n = choose|n: int| 0 <= n < b.len() && b[n] == x;
                assert(r[a.len() + n] == b[n]);
            }
        }
        assert forall|e: (Seq<char>, Seq<char>)| #[trigger] r.contains(e) implies exists|i: int, j: int, k: int|
            0 <= i < ls.len() && 0 <= j < ls[i].commands@.len() && 0 <= k < phrases_for(
                ls[i].commands@[j],
                lang,
            ).len() && e == (
                #[trigger] phrases_for(ls[i].commands@[j], lang)[k],
                ls[i].commands@[j].id@,
            ) by {
            let n = choose|n: int| 0 <= n < r.len() && r[n] == e;
            if n < a.len() {
                assert(a[n] == e);
                assert(a.contains(e));
                let (i, j, k) = choose|i: int, j: int, k: int|
                    0 <= i < prev.len() && 0 <= j < prev[i].commands@.len() && 0 <= k < phrases_for(
                        prev[i].commands@[j],
                        lang,
                    ).len() && e == (
                        #[trigger] phrases_for(prev[i].commands@[j], lang)[k],
                        prev[i].commands@[j].id@,
                    );
                assert(prev[i] == ls[i]);
                assert(e == (phrases_for(ls[i].commands@[j], lang)[k], ls[i].commands@[j].id@));
            } else {
                assert(b[n - a.len()] == e);
                assert(b.contains(e));
                let (j, k) = choose|j: int, k: int|
                    0 <= j < cs.len() && 0 <= k < phrases_for(cs[j], lang).len() && e == (
                        #[trigger] phrases_for(cs[j], lang)[k],
                        cs[j].id@,
                    );
                let i = ls.len() - 1;
                assert(ls[i].commands@ == cs);
                assert(e == (phrases_for(ls[i].commands@[j], lang)[k], ls[i].commands@[j].id@));
            }
        }
    }
}

/// Whether the intent classifier must be trained again rather than loaded
/// from its cached training data: unless both the cache and the stored hash
/// of the commands are present, and the stored hash, trimmed, is the hash of
/// the current commands. (A stored hash that could not be read is passed as
/// empty.)
pub fn should_retrain(cache_present: bool, stored_hash: &str, current_hash: &str) -> (r: bool)
    ensures
        r == (!cache_present || trim(stored_hash@) != current_hash@),
{
    if cache_present {
        let stored = trim_str(stored_hash);
        !(stored == String::from_str(current_hash))
    } else {
        true
    }
}

/// Languages of a table: no two entries share one (as in a map).
pub open spec fn langs_distinct(m: Seq<LocalizedEntry>) -> bool {
    forall|i: int, j: int| 0 <= i < j < m.len() ==> m[i].lang != m[j].lang
}

/// The map a table stands for: each language to the values of its first
/// entry.
pub open spec fn table_map(m: Seq<LocalizedEntry>) -> Map<Seq<char>, Seq<Seq<char>>>
    decreases m.len(),
{
    if m.len() == 0 {
        Map::empty()
    } else {
        table_map(m.drop_first()).insert(m[0].lang, m[0].values)
    }
}

/// Looking a language up in a table agrees with the map it stands for.
pub proof fn lemma_lookup_agrees_with_map(m: Seq<LocalizedEntry>, lang: Seq<char>)
    ensures
        lookup(m, lang) == (if table_map(m).contains_key(lang) {
            Some(table_map(m)[lang])
        } else {
            None
        }),
    decreases m.len(),
{
    if m.len() > 0 {
        lemma_lookup_agrees_with_map(m.drop_first(), lang);
    }
}

/// In a table without repeated languages, every entry is what its language
/// looks up: no entry is hidden behind another.
pub proof fn lemma_distinct_entries_are_found(m: Seq<LocalizedEntry>, i: int)
    requires
        langs_distinct(m),
        0 <= i < m.len(),
    ensures
        lookup(m, m[i].lang) == Some(m[i].values),
    decreases i,
{
    if i > 0 {
        let t = m.drop_first();
        assert(langs_distinct(t)) by {
            assert forall|a: int, b: int| 0 <= a < b < t.len() implies t[a].lang != t[b].lang by {
                assert(t[a] == m[a + 1] && t[b] == m[b + 1]);
            }
        }
        assert(t[i - 1] == m[i]);
        lemma_distinct_entries_are_found(t, i - 1);
        assert(m[0].lang != m[i].lang);
    }
}

/// A copy of a list of strings.
fn copy_strings(v: &Vec<String>) -> (r: Vec<String>)
    ensures
        strings_view(r@) == strings_view(v@),
{
    let mut r: Vec<String> = Vec::with_capacity(v.len());
    let mut i: usize = 0;
    while i < v.len()
        invariant
            i <= v@.len(),
            strings_view(r@) == strings_view(v@.take(i as int)),
        decreases v@.len() - i,
    {
        let ghost before = r@;
        r.push(v[i].clone());
        assert(strings_view(r@) =~= strings_view(before).push(v@[i as int]@));
        assert(v@.take(i + 1) =~= v@.take(i as int).push(v@[i as int]));
        assert(strings_view(v@.take(i + 1)) =~= strings_view(v@.take(i as int)).push(v@[i as int]@));
        i = i + 1;
    }
    assert(v@.take(v@.len() as int) =~= v@);
    r
}

/// A copy of a per-language table.
fn copy_table(m: &Vec<(String, Vec<String>)>) -> (r: Vec<(String, Vec<String>)>)
    ensures
        localized_view(r@) == localized_view(m@),
{
    let mut r: Vec<(String, Vec<String>)> = Vec::with_capacity(m.len());
    let mut i: usize = 0;
    while i < m.len()
        invariant
            i <= m@.len(),
            localized_view(r@) == localized_view(m@.take(i as int)),
        decreases m@.len() - i,
    {
        let ghost before = r@;
        let e = (m[i].0.clone(), copy_strings(&m[i].1));
        r.push(e);
        assert(localized_view(r@) =~= localized_view(before).push(localized_view(m@)[i as int]));
        assert(m@.take(i + 1) =~= m@.take(i as int).push(m@[i as int]));
        assert(localized_view(m@.take(i + 1)) =~= localized_view(m@.take(i as int)).push(
            localized_view(m@)[i as int],
        ));
        i = i + 1;
    }
    assert(m@.take(m@.len() as int) =~= m@);
    r
}

/// Two commands with the same text in every field.
pub open spec fn same_command(a: JCommand, b: JCommand) -> bool {
    &&& a.id@ == b.id@
    &&& a.action@ == b.action@
    &&& a.description@ == b.description@
    &&& a.exe_path@ == b.exe_path@
    &&& strings_view(a.exe_args@) == strings_view(b.exe_args@)
    &&& a.cli_cmd@ == b.cli_cmd@
    &&& strings_view(a.cli_args@) == strings_view(b.cli_args@)
    &&& localized_view(a.sounds@) == localized_view(b.sounds@)
    &&& localized_view(a.phrases@) == localized_view(b.phrases@)
}

/// The index of the first entry for `lang`.
fn lookup_index(m: &Vec<(String, Vec<String>)>, lang: &str) -> (r: Option<usize>)
    ensures
        match r {
            Some(i) => i < m@.len() && lookup(localized_view(m@), lang@) == Some(
                strings_view(m@[i as int].1@),
            ),
            None => lookup(localized_view(m@), lang@) is None,
        },
{
    let key = String::from_str(lang);
    let ghost mv = localized_view(m@);
    let mut i: usize = 0;
    assert(mv.skip(0) =~= mv);
    while i < m.len()
        invariant
            i <= m@.len(),
            key@ == lang@,
            mv == localized_view(m@),
            lookup(mv, lang@) == lookup(mv.skip(i as int), lang@),
        decreases m@.len() - i,
    {
        assert(mv.skip(i as int)[0] == mv[i as int]);
        assert(mv.skip(i as int).drop_first() =~= mv.skip(i + 1));
        if m[i].0 == key {
            return Some(i);
        }
        i = i + 1;
    }
    None
}

/// The values for a language in a table: its own, else English ones, else
/// those of the first entry, else none.
pub fn resolve_localized(m: &Vec<(String, Vec<String>)>, lang: &str) -> (r: Vec<String>)
    ensures
        strings_view(r@) == resolve_localized_spec(localized_view(m@), lang@),
{
    if let Some(i) = lookup_index(m, lang) {
        return copy_strings(&m[i].1);
    }
    let en = String::from_str("en");
    if !(String::from_str(lang) == en) {
        if let Some(i) = lookup_index(m, en.as_str()) {
            return copy_strings(&m[i].1);
        }
    }
    if m.len() > 0 {
        copy_strings(&m[0].1)
    } else {
        let r: Vec<String> = Vec::new();
        assert(strings_view(r@) =~= Seq::<Seq<char>>::empty());
        r
    }
}

/// All values of a table, entry after entry.
fn flatten_values(m: &Vec<(String, Vec<String>)>) -> (r: Vec<String>)
    ensures
        strings_view(r@) == all_values(localized_view(m@)),
{
    let ghost mv = localized_view(m@);
    let mut r: Vec<String> = Vec::new();
    let mut i: usize = 0;
    assert(mv.skip(0) =~= mv);
    while i < m.len()
        invariant
            i <= m@.len(),
            mv == localized_view(m@),
            all_values(mv) == strings_view(r@) + all_values(mv.skip(i as int)),
        decreases m@.len() - i,
    {
        assert(mv.skip(i as int)[0] == mv[i as int]);
        assert(mv.skip(i as int).drop_first() =~= mv.skip(i + 1));
        let vals = &m[i].1;
        let mut k: usize = 0;
        let ghost start = r@;
        while k < vals.len()
            invariant
                k <= vals@.len(),
                strings_view(r@) == strings_view(start) + strings_view(vals@.take(k as int)),
            decreases vals@.len() - k,
        {
            let ghost before = r@;
            r.push(vals[k].clone());
            assert(strings_view(r@) =~= strings_view(before).push(vals@[k as int]@));
            assert(vals@.take(k + 1) =~= vals@.take(k as int).push(vals@[k as int]));
            assert(strings_view(vals@.take(k + 1)) =~= strings_view(vals@.take(k as int)).push(
                vals@[k as int]@,
            ));
            k = k + 1;
        }
        assert(vals@.take(vals@.len() as int) =~= vals@);
        assert(strings_view(r@) =~= strings_view(start) + mv[i as int].values);
        i = i + 1;
    }
    assert(mv.skip(m@.len() as int).len() == 0);
    assert(strings_view(r@) + Seq::<Seq<char>>::empty() =~= strings_view(r@));
    r
}

/// Training examples by their characters.
pub open spec fn example_views(v: Seq<(String, String)>) -> Seq<(Seq<char>, Seq<char>)> {
    v.map_values(|e: (String, String)| (e.0@, e.1@))
}

/// The file and the command whose id is `intent_id`: the first such command
/// in file order, then in command order.
pub fn get_command<'a>(commands: &'a [JCommandsList], intent_id: &str) -> (r: Option<
    (&'a String, &'a JCommand),
>)
    ensures
        match r {
            Some(found) => exists|i: int, j: int|
                {
                    &&& #[trigger] has_id(commands@, i, j, intent_id@)
                    &&& forall|k: int, l: int|
                        before(k, l, i, j) ==> !#[trigger] has_id(commands@, k, l, intent_id@)
                    &&& *found.0 == commands@[i].path
                    &&& *found.1 == commands@[i].commands@[j]
                },
            None => forall|i: int, j: int| !#[trigger] has_id(commands@, i, j, intent_id@),
        },
{
    let key = String::from_str(intent_id);
    let mut i: usize = 0;
    while i < commands.len()
        invariant
            i <= commands@.len(),
            key@ == intent_id@,
            forall|k: int, l: int| 0 <= k < i ==> !#[trigger] has_id(commands@, k, l, intent_id@),
        decreases commands@.len() - i,
    {
        let cs = &commands[i].commands;
        let mut j: usize = 0;
        while j < cs.len()
            invariant
                i < commands@.len(),
                j <= cs@.len(),
                cs@ == commands@[i as int].commands@,
                key@ == intent_id@,
                forall|k: int, l: int| 0 <= k < i ==> !#[trigger] has_id(commands@, k, l, intent_id@),
                forall|l: int| 0 <= l < j ==> !#[trigger] has_id(commands@, i as int, l, intent_id@),
            decreases cs@.len() - j,
        {
            if cs[j].id == key {
                assert(has_id(commands@, i as int, j as int, intent_id@));
                return Some((&commands[i].path, &cs[j]));
            }
            j = j + 1;
        }
        i = i + 1;
    }
    None
}

/// The examples an intent classifier is trained with: for every command of
/// every file, in order, each of its phrases for the language paired with
/// the command's id.
pub fn training_examples(commands: &[JCommandsList], lang: &str) -> (r: Vec<(String, String)>)
    ensures
        example_views(r@) == lists_examples(commands@, lang@),
{
    let mut r: Vec<(String, String)> = Vec::new();
    let mut i: usize = 0;
    assert(example_views(r@) =~= lists_examples(commands@.take(0), lang@));
    while i < commands.len()
        invariant
            i <= commands@.len(),
            example_views(r@) == lists_examples(commands@.take(i as int), lang@),
        decreases commands@.len() - i,
    {
        let cs = &commands[i].commands;
        let ghost base = r@;
        let mut j: usize = 0;
        assert(commands_examples(cs@.take(0), lang@) =~= Seq::<(Seq<char>, Seq<char>)>::empty());
        assert(example_views(r@) =~= lists_examples(commands@.take(i as int), lang@)
            + commands_examples(cs@.take(0), lang@));
        while j < cs.len()
            invariant
                i < commands@.len(),
                j <= cs@.len(),
                cs@ == commands@[i as int].commands@,
                example_views(r@) == lists_examples(commands@.take(i as int), lang@)
                    + commands_examples(cs@.take(j as int), lang@),
            decreases cs@.len() - j,
        {
            let c = &cs[j];
            let phrases = c.get_phrases(lang);
            let ghost mid = example_views(r@);
            let mut k: usize = 0;
            assert(example_views(r@) =~= mid + command_examples(*c, lang@).take(0));
            while k < phrases.len()
                invariant
                    k <= phrases@.len(),
                    strings_view(phrases@) == resolve_localized_spec(
                        localized_view(c.phrases@),
                        lang@,
                    ),
                    example_views(r@) == mid + command_examples(*c, lang@).take(k as int),
                decreases phrases@.len() - k,
            {
                let ghost before = r@;
                r.push((phrases[k].clone(), c.id.clone()));
                assert(command_examples(*c, lang@)[k as int] == (phrases@[k as int]@, c.id@));
                assert(command_examples(*c, lang@).take(k + 1) =~= command_examples(*c, lang@).take(
                    k as int,
                ).push((phrases@[k as int]@, c.id@)));
                assert(example_views(r@) =~= example_views(before).push(
                    (phrases@[k as int]@, c.id@),
                ));
                k = k + 1;
            }
            assert(command_examples(*c, lang@).take(phrases@.len() as int) =~= command_examples(
                *c,
                lang@,
            ));
            assert(cs@.take(j + 1).drop_last() =~= cs@.take(j as int));
            assert(commands_examples(cs@.take(j + 1), lang@) == commands_examples(
                cs@.take(j as int),
                lang@,
            ) + command_examples(*c, lang@));
            assert(example_views(r@) =~= lists_examples(commands@.take(i as int), lang@)
                + commands_examples(cs@.take(j + 1), lang@));
            j = j + 1;
        }
        assert(cs@.take(cs@.len() as int) =~= cs@);
        assert(commands@.take(i + 1).drop_last() =~= commands@.take(i as int));
        assert(lists_examples(commands@.take(i + 1), lang@) == lists_examples(
            commands@.take(i as int),
            lang@,
        ) + commands_examples(commands@[i as int].commands@, lang@));
        i = i + 1;
    }
    assert(commands@.take(commands@.len() as int) =~= commands@);
    r
}

impl JCommand {
    /// A copy of the command, field by field.
    pub fn duplicate(&self) -> (c: Self)
        ensures
            same_command(c, *self),
    {
        JCommand {
            id: self.id.clone(),
            action: self.action.clone(),
            description: self.description.clone(),
            exe_path: self.exe_path.clone(),
            exe_args: copy_strings(&self.exe_args),
            cli_cmd: self.cli_cmd.clone(),
            cli_args: copy_strings(&self.cli_args),
            sounds: copy_table(&self.sounds),
            phrases: copy_table(&self.phrases),
        }
    }

    /// The phrases for a language (own, else English, else the first table
    /// entry's).
    pub fn get_phrases(&self, lang: &str) -> (r: Vec<String>)
        ensures
            strings_view(r@) == resolve_localized_spec(localized_view(self.phrases@), lang@),
    {
        resolve_localized(&self.phrases, lang)
    }

    /// Every phrase of every language, table entry after table entry.
    pub fn get_all_phrases(&self) -> (r: Vec<String>)
        ensures
            strings_view(r@) == all_values(localized_view(self.phrases@)),
    {
        flatten_values(&self.phrases)
    }

    /// The sounds for a language (own, else English, else the first table
    /// entry's).
    pub fn get_sounds(&self, lang: &str) -> (r: Vec<String>)
        ensures
            strings_view(r@) == resolve_localized_spec(localized_view(self.sounds@), lang@),
    {
        resolve_localized(&self.sounds, lang)
    }

    /// Every sound of every language, table entry after table entry.
    pub fn get_all_sounds(&self) -> (r: Vec<String>)
        ensures
            strings_view(r@) == all_values(localized_view(self.sounds@)),
    {
        flatten_values(&self.sounds)
    }
}

} // verus!

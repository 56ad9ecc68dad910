use vstd::prelude::*;
use vstd::string::*;

verus! {

/// The path of the save file called `file_name` in the storage directory.
pub fn save_data_path(file_name: &str) -> (path: String)
    ensures
        path@ == "./storage/"@ + file_name@ + ".json"@,
{
    let mut path = String::from_str("./storage/");
    path.append(file_name);
    path.append(".json");
    path
}

/// What chrono renders for the UNIX timestamp of `secs` seconds and
/// `nanos` nanoseconds, in RFC 3339 form; `None` where chrono has no date
/// for it.
pub uninterp spec fn rfc3339_of_timestamp(secs: int, nanos: int) -> Option<Seq<char>>;

/// Calls chrono's `DateTime::<Utc>::from_timestamp` and renders the result
/// with the `%+` (RFC 3339) format. The contract claims only that the
/// outcome is a function of the two arguments (named above): `None`
/// exactly where chrono gives no date, the rendered text otherwise.
#[verifier::external_body]
fn format_timestamp(secs: i64, nanos: u32) -> (text: Option<String>)
    ensures
        match text {
            Some(t) => rfc3339_of_timestamp(secs as int, nanos as int) == Some(t@),
            None => rfc3339_of_timestamp(secs as int, nanos as int) is None,
        },
{
    match chrono::DateTime::<chrono::Utc>::from_timestamp(secs, nanos) {
        Some(time) => Some(format!("{}", time.format("%+"))),
        None => None,
    }
}

/// The name of a save written at the time rendered as `timestamp`.
pub fn save_name(timestamp: &str) -> (name: String)
    ensures
        name@ == "save_"@ + timestamp@,
{
    let mut name = String::from_str("save_");
    name.append(timestamp);
    name
}

/// The name of a save written at the given UNIX time: `save_` and the time
/// in RFC 3339 form, or `None` where the time has no date.
pub fn new_save_name(secs: i64, nanos: u32) -> (name: Option<String>)
    ensures
        match name {
            Some(n) => rfc3339_of_timestamp(secs as int, nanos as int) matches Some(t) && n@ == "save_"@ + t,
            None => rfc3339_of_timestamp(secs as int, nanos as int) is None,
        },
{
    match format_timestamp(secs, nanos) {
        Some(text) => Some(save_name(text.as_str())),
        None => None,
    }
}

/// The names of the save files that can be loaded, oldest first.
pub struct SaveSystem {
    pub available_save_data: Vec<String>,
}

impl SaveSystem {
    /// The save system after a frame: a save written in that frame, if any,
    /// joins the end of the list.
    pub fn with_new_save(self, new_save: Option<String>) -> (next: SaveSystem)
        ensures
            new_save is None ==> next.available_save_data@ == self.available_save_data@,
            new_save matches Some(name) ==> next.available_save_data@
                == self.available_save_data@.push(name),
    {
        let mut available_save_data = self.available_save_data;
        match new_save {
            Some(name) => available_save_data.push(name),
            None => {},
        }
        SaveSystem { available_save_data }
    }
}


/// `a` comes before `b` in the order of Rust's string comparison (by
/// characters, a proper prefix first).
pub open spec fn lex_less(a: Seq<char>, b: Seq<char>) -> bool
    decreases a.len(),
{
    if b.len() == 0 {
        false
    } else if a.len() == 0 {
        true
    } else if a[0] != b[0] {
        (a[0] as u32) < (b[0] as u32)
    } else {
        lex_less(a.drop_first(), b.drop_first())
    }
}

/// The later of the names seen so far, scanning in order and taking the new
/// name unless the one kept is greater; an empty list gives the empty name.
pub open spec fn spec_most_recent(names: Seq<Seq<char>>) -> Seq<char>
    decreases names.len(),
{
    if names.len() == 0 {
        Seq::empty()
    } else {
        let kept = spec_most_recent(names.drop_last());
        if lex_less(names.last(), kept) {
            kept
        } else {
            names.last()
        }
    }
}

/// The views of a list of strings.
pub open spec fn names_view(names: Seq<String>) -> Seq<Seq<char>> {
    names.map_values(|n: String| n@)
}

/// Whether `a` is less than `b` in string order.
pub fn str_less(a: &str, b: &str) -> (less: bool)
    ensures
        less == lex_less(a@, b@),
{
    let la = a.unicode_len();
    let lb = b.unicode_len();
    let mut i: usize = 0;
    assert(a@.skip(0) =~= a@);
    assert(b@.skip(0) =~= b@);
    while i < la && i < lb
        invariant
            la == a@.len(),
            lb == b@.len(),
            i <= la,
            i <= lb,
            lex_less(a@, b@) == lex_less(a@.skip(i as int), b@.skip(i as int)),
        decreases la - i,
    {
        let ca = a.get_char(i);
        let cb = b.get_char(i);
        proof {
            let sa = a@.skip(i as int);
            let sb = b@.skip(i as int);
            assert(sa[0] == ca && sb[0] == cb);
            assert(sa.drop_first() =~= a@.skip(i + 1));
            assert(sb.drop_first() =~= b@.skip(i + 1));
        }
        if ca != cb {
            return (ca as u32) < (cb as u32);
        }
        i = i + 1;
    }
    proof {
        assert(a@.skip(i as int).len() == la - i);
    }
    i == la && i < lb
}

/// The name of the most recent save: save names carry their time of
/// writing, so this is the greatest name in string order.
pub fn most_recent_save(available_saves: &Vec<String>) -> (name: String)
    ensures
        name@ == spec_most_recent(names_view(available_saves@)),
{
    let ghost all = names_view(available_saves@);
    let mut best: Option<usize> = None;
    let mut i: usize = 0;
    while i < available_saves.len()
        invariant
            i <= available_saves@.len(),
            all == names_view(available_saves@),
            best matches Some(b) ==> b < i && available_saves@[b as int]@ == spec_most_recent(
                all.take(i as int),
            ),
            best is None ==> spec_most_recent(all.take(i as int)) == Seq::<char>::empty() && (i == 0),
        decreases available_saves@.len() - i,
    {
        proof {
            let t = all.take(i + 1);
            assert(t.drop_last() =~= all.take(i as int));
            assert(t.last() == available_saves@[i as int]@);
        }
        match best {
            Some(b) => {
                if !str_less(available_saves[i].as_str(), available_saves[b].as_str()) {
                    best = Some(i);
                }
            },
            None => {
                best = Some(i);
                proof {
                    assert(!lex_less(available_saves@[i as int]@, Seq::<char>::empty()));
                }
            },
        }
        i = i + 1;
    }
    proof {
        assert(all.take(i as int) =~= all);
    }
    match best {
        Some(b) => available_saves[b].clone(),
        None => String::new(),
    }
}

/// No name is less than itself.
pub proof fn lemma_lex_less_irreflexive(a: Seq<char>)
    ensures
        !lex_less(a, a),
    decreases a.len(),
{
    if a.len() > 0 {
        lemma_lex_less_irreflexive(a.drop_first());
    }
}

/// Different characters have different codes.
pub proof fn lemma_char_code_injective(c: char, d: char)
    requires
        c != d,
    ensures
        (c as u32) != (d as u32),
{
    assert((c as u32) as int == c as int);
    assert((d as u32) as int == d as int);
}

/// Of two different names, one is less than the other.
pub proof fn lemma_lex_less_total(a: Seq<char>, b: Seq<char>)
    requires
        a != b,
    ensures
        lex_less(a, b) || lex_less(b, a),
    decreases a.len(),
{
    if a.len() > 0 && b.len() > 0 && a[0] == b[0] {
        if a.drop_first() == b.drop_first() {
            assert(a =~= seq![a[0]] + a.drop_first());
            assert(b =~= seq![b[0]] + b.drop_first());
        }
        lemma_lex_less_total(a.drop_first(), b.drop_first());
    } else if a.len() == 0 && b.len() == 0 {
        assert(a =~= b);
    } else if a.len() > 0 && b.len() > 0 {
        lemma_char_code_injective(a[0], b[0]);
    }
}

/// The order on names is transitive.
pub proof fn lemma_lex_less_transitive(a: Seq<char>, b: Seq<char>, c: Seq<char>)
    requires
        lex_less(a, b),
        lex_less(b, c),
    ensures
        lex_less(a, c),
    decreases a.len(),
{
    if a.len() > 0 && b.len() > 0 && c.len() > 0 && a[0] == b[0] && b[0] == c[0] {
        lemma_lex_less_transitive(a.drop_first(), b.drop_first(), c.drop_first());
    }
}

/// The "continue" choice of the main menu loads a save that no other save
/// follows in string order, and that is one of the available saves whenever
/// there is any.
pub proof fn law_most_recent_is_greatest(names: Seq<Seq<char>>)
    ensures
        forall|i: int| 0 <= i < names.len() ==> !lex_less(spec_most_recent(names), #[trigger] names[i]),
        names.len() > 0 ==> names.contains(spec_most_recent(names)),
    decreases names.len(),
{
    if names.len() > 0 {
        let rest = names.drop_last();
        law_most_recent_is_greatest(rest);
        let kept = spec_most_recent(rest);
        let last = names.last();
        let m = spec_most_recent(names);
        if lex_less(last, kept) {
            assert forall|i: int| 0 <= i < names.len() implies !lex_less(m, #[trigger] names[i]) by {
                if i == names.len() - 1 {
                    if lex_less(kept, last) {
                        lemma_lex_less_transitive(kept, last, kept);
                        lemma_lex_less_irreflexive(kept);
                    }
                } else {
                    assert(names[i] == rest[i]);
                }
            }
            assert(rest.len() > 0);
            let j = choose|j: int| 0 <= j < rest.len() && rest[j] == kept;
            assert(names[j] == kept);
        } else {
            assert forall|i: int| 0 <= i < names.len() implies !lex_less(m, #[trigger] names[i]) by {
                if i == names.len() - 1 {
                    lemma_lex_less_irreflexive(last);
                } else {
                    assert(names[i] == rest[i]);
                    if lex_less(last, rest[i]) {
                        if kept != rest[i] {
                            lemma_lex_less_total(kept, rest[i]);
                        }
                        lemma_lex_less_transitive(last, rest[i], kept);
                    }
                }
            }
            assert(names[names.len() - 1] == m);
        }
    }
}

} // verus!

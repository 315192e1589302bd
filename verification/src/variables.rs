//! Assignments of values to variable names, and the substitution of
//! `${name}` tokens in a query template.

use crate::text::{chars_of, find_char, first_of, join, joined, push_text, texts};
use crate::text_map::{distinct, TextMap};
use vstd::prelude::*;
use vstd::string::*;

verus! {

/// One value per variable name.
#[derive(Debug)]
pub struct VariablesAssignment {
    entries: TextMap<String>,
}

impl VariablesAssignment {
    /// The assignment as a map from name to value.
    pub closed spec fn view(&self) -> Map<Seq<char>, Seq<char>> {
        Map::new(
            |name: Seq<char>| self.entries@.contains_key(name),
            |name: Seq<char>| self.entries@[name]@,
        )
    }

    /// The names in the order in which they were first assigned.
    pub closed spec fn names(&self) -> Seq<Seq<char>> {
        self.entries.keys()
    }

    /// The assigned names are exactly `names()`, each once.
    pub proof fn lemma_names(&self)
        requires
            self.wf(),
        ensures
            distinct(self.names()),
            self@.dom() == self.names().to_set(),
            self@.dom().finite(),
            self@.dom().len() == self.names().len(),
    {
        self.entries.lemma_shape();
        let names = self.names();
        assert(self@.dom() =~= names.to_set());
        assert(names.no_duplicates());
        names.unique_seq_to_set();
    }

    /// Holds of every assignment.
    #[verifier::type_invariant]
    pub closed spec fn wf(&self) -> bool {
        self.entries.wf()
    }

    /// The assignment that holds no name.
    pub fn new() -> (out: Self)
        ensures
            out@ == Map::<Seq<char>, Seq<char>>::empty(),
            out.names() == Seq::<Seq<char>>::empty(),
    {
        let entries = TextMap::new();
        proof {
            use_type_invariant(&entries);
        }
        let out = VariablesAssignment { entries };
        proof {
            assert(out@ =~= Map::<Seq<char>, Seq<char>>::empty());
        }
        out
    }

    /// The number of names that have a value.
    pub fn len(&self) -> (n: usize)
        ensures
            n == self@.dom().len(),
            n == self.names().len(),
    {
        proof {
            use_type_invariant(self);
            self.lemma_names();
        }
        self.entries.len()
    }

    /// Whether `name` has a value.
    pub fn contains_key(&self, name: &str) -> (found: bool)
        ensures
            found == self@.contains_key(name@),
    {
        self.entries.contains_key(name)
    }

    /// The value of `name`.
    pub fn get(&self, name: &str) -> (value: Option<&String>)
        ensures
            match value {
                Some(v) => self@.contains_key(name@) && v@ == self@[name@],
                None => !self@.contains_key(name@),
            },
    {
        self.entries.get(name)
    }

    /// Gives `name` the value `value`, in place of any value it had.
    pub fn insert(&mut self, name: &str, value: String)
        ensures
            final(self)@ == old(self)@.insert(name@, value@),
            final(self).names() == if old(self)@.contains_key(name@) {
                old(self).names()
            } else {
                old(self).names().push(name@)
            },
    {
        let mut taken = VariablesAssignment::new();
        std::mem::swap(self, &mut taken);
        let mut entries = taken.entries;
        entries.insert(String::from_str(name), value);
        proof {
            use_type_invariant(&entries);
        }
        let after = VariablesAssignment { entries };
        proof {
            assert(after@ =~= old(self)@.insert(name@, value@));
        }
        *self = after;
    }

    /// The name at position `i` of `names()`.
    pub fn name_at(&self, i: usize) -> (name: &String)
        requires
            i < self.names().len(),
        ensures
            name@ == self.names()[i as int],
    {
        self.entries.key_at(i)
    }

    /// The value of the name at position `i` of `names()`.
    pub fn value_at(&self, i: usize) -> (value: &String)
        requires
            i < self.names().len(),
        ensures
            self@.contains_key(self.names()[i as int]),
            value@ == self@[self.names()[i as int]],
    {
        proof {
            use_type_invariant(self);
            self.entries.lemma_shape();
        }
        self.entries.value_at(i)
    }
}

impl Clone for VariablesAssignment {
    fn clone(&self) -> (out: Self)
        ensures
            out@ == self@,
            out.names() == self.names(),
    {
        let mut out = VariablesAssignment::new();
        let n = self.len();
        let mut i: usize = 0;
        proof {
            use_type_invariant(self);
            self.entries.lemma_shape();
        }
        while i < n
            invariant
                i <= n,
                n == self.names().len(),
                self.wf(),
                out.names() == self.names().take(i as int),
                forall|j: int|
                    0 <= j < i ==> out@.contains_key(#[trigger] self.names()[j]) && out@[self.names()[j]]
                        == self@[self.names()[j]],
            decreases n - i,
        {
            proof {
                self.entries.lemma_shape();
                use_type_invariant(&out);
                assert(!out.names().contains(self.names()[i as int]));
                out.lemma_names();
                assert(!out@.contains_key(self.names()[i as int]));
            }
            let ghost before = out;
            out.insert(self.name_at(i).as_str(), self.value_at(i).clone());
            proof {
                assert(out.names() =~= self.names().take(i + 1));
                assert forall|j: int| 0 <= j < i + 1 implies out@.contains_key(
                    #[trigger] self.names()[j],
                ) && out@[self.names()[j]] == self@[self.names()[j]] by {
                    if j < i {
                        assert(before@.contains_key(self.names()[j]));
                    }
                }
            }
            i += 1;
        }
        proof {
            assert(self.names().take(n as int) =~= self.names());
            use_type_invariant(&out);
            out.lemma_names();
            self.lemma_names();
            assert forall|k: Seq<char>| self@.contains_key(k) implies #[trigger] out@.contains_key(k)
                && out@[k] == self@[k] by {
                let j = choose|j: int| 0 <= j < self.names().len() && self.names()[j] == k;
                assert(out@.contains_key(self.names()[j]));
            }
            assert(out@ =~= self@);
        }
        out
    }
}

/// The first position at or after `from` that holds `}`, or `s.len()`
/// where none does: where a name that starts at `from` ends.
pub open spec fn name_end(s: Seq<char>, from: int) -> int {
    first_of(s, from, s.len() as int, '}')
}

/// Whether a token starts at `at`: the two characters `${`, then a name,
/// then `}`. The name is any run of characters without a `}`: it may be
/// empty, it may hold a line feed, and it ends at the first `}`.
pub open spec fn token_at(s: Seq<char>, at: int) -> bool {
    &&& 0 <= at
    &&& at + 2 <= name_end(s, at + 2) < s.len()
    &&& s[at] == '$'
    &&& s[at + 1] == '{'
}

/// The name of the token that starts at `at`.
pub open spec fn token_name(s: Seq<char>, at: int) -> Seq<char> {
    s.subrange(at + 2, name_end(s, at + 2))
}

/// The position just behind the token that starts at `at`.
pub open spec fn token_stop(s: Seq<char>, at: int) -> int {
    name_end(s, at + 2) + 1
}

/// Whether a token starts anywhere in `s[from..to]`.
pub open spec fn has_token(s: Seq<char>, from: int, to: int) -> bool {
    exists|at: int| from <= at < to && token_at(s, at)
}

/// What stands in the output for a token whose name has no value.
pub open spec fn placeholder() -> Seq<char> {
    seq!['E', 'R', 'R', 'O', 'R']
}

/// `s[from..]` with every token replaced, scanning left to right: a token
/// gives the value of its name (the placeholder where it has none), and the
/// scan goes on behind the token, so what was put in is not scanned again. A
/// character that starts no token is kept.
pub open spec fn substituted(s: Seq<char>, from: int, values: Map<Seq<char>, Seq<char>>) -> Seq<
    char,
>
    decreases s.len() - from,
{
    if from < 0 || from >= s.len() {
        Seq::empty()
    } else if token_at(s, from) {
        let name = token_name(s, from);
        let value = if values.contains_key(name) {
            values[name]
        } else {
            placeholder()
        };
        value + substituted(s, token_stop(s, from), values)
    } else {
        seq![s[from]] + substituted(s, from + 1, values)
    }
}

/// The names of the tokens of `s[from..]` that have no value, one for each
/// such token, in the order of the tokens.
pub open spec fn missing(s: Seq<char>, from: int, values: Map<Seq<char>, Seq<char>>) -> Seq<
    Seq<char>,
>
    decreases s.len() - from,
{
    if from < 0 || from >= s.len() {
        Seq::empty()
    } else if token_at(s, from) {
        let name = token_name(s, from);
        let here = if values.contains_key(name) {
            Seq::empty()
        } else {
            seq![name]
        };
        here + missing(s, token_stop(s, from), values)
    } else {
        missing(s, from + 1, values)
    }
}

/// A stretch in which no token starts is kept as it is.
pub proof fn lemma_plain_stretch(
    s: Seq<char>,
    from: int,
    to: int,
    values: Map<Seq<char>, Seq<char>>,
)
    requires
        0 <= from <= to <= s.len(),
        !has_token(s, from, to),
    ensures
        substituted(s, from, values) == s.subrange(from, to) + substituted(s, to, values),
        missing(s, from, values) == missing(s, to, values),
    decreases to - from,
{
    if from < to {
        assert(!token_at(s, from));
        assert forall|at: int| from + 1 <= at < to implies !token_at(s, at) by {
            assert(from <= at < to);
        }
        lemma_plain_stretch(s, from + 1, to, values);
        assert(s.subrange(from, to) =~= seq![s[from]] + s.subrange(from + 1, to));
        assert(seq![s[from]] + (s.subrange(from + 1, to) + substituted(s, to, values)) =~= (seq![
            s[from],
        ] + s.subrange(from + 1, to)) + substituted(s, to, values));
    } else {
        assert(s.subrange(from, to) + substituted(s, to, values) =~= substituted(s, to, values));
    }
}

/// Substituting is idempotent on its own output where every token of the
/// template had a value and the output holds no token: a second pass over
/// the output gives the output again, and misses nothing.
pub proof fn lemma_substitute_idempotent(template: Seq<char>, values: Map<Seq<char>, Seq<char>>)
    requires
        missing(template, 0, values).len() == 0,
        !has_token(
            substituted(template, 0, values),
            0,
            substituted(template, 0, values).len() as int,
        ),
    ensures
        substituted(substituted(template, 0, values), 0, values) == substituted(
            template,
            0,
            values,
        ),
        missing(substituted(template, 0, values), 0, values).len() == 0,
{
    let out = substituted(template, 0, values);
    lemma_plain_stretch(out, 0, out.len() as int, values);
    assert(out.subrange(0, out.len() as int) + Seq::<char>::empty() =~= out);
}

/// The names that a substitution found without a value, one for each token
/// that named one, in the order of the tokens.
#[derive(Debug)]
pub struct SubstitutionError {
    pub missing: Vec<String>,
}

/// What is said of a name without a value.
pub open spec fn not_found(name: Seq<char>) -> Seq<char> {
    "Variable "@ + name + " not found"@
}

/// What is said of the names `missing`: a heading, then a line for each
/// name.
pub open spec fn missing_message(missing: Seq<Seq<char>>) -> Seq<char> {
    "Encountered substitution errors:\n  "@ + joined(
        Seq::new(missing.len(), |i: int| not_found(missing[i])),
        "\n  "@,
    )
}

impl SubstitutionError {
    /// The names as texts.
    pub open spec fn view(&self) -> Seq<Seq<char>> {
        texts(self.missing@)
    }

    /// The error in words, with every missing name.
    pub fn message(&self) -> (out: String)
        ensures
            out@ == missing_message(self@),
    {
        let mut lines: Vec<String> = Vec::new();
        let mut i: usize = 0;
        let ghost all = Seq::new(self@.len(), |i: int| not_found(self@[i]));
        while i < self.missing.len()
            invariant
                i <= self.missing.len(),
                all == Seq::new(self@.len(), |i: int| not_found(self@[i])),
                texts(lines@) == all.take(i as int),
            decreases self.missing.len() - i,
        {
            let mut line = String::from_str("Variable ");
            line.append(self.missing[i].as_str());
            line.append(" not found");
            push_text(&mut lines, line);
            assert(texts(lines@) =~= all.take(i + 1));
            i += 1;
        }
        assert(all.take(self.missing.len() as int) =~= all);
        let mut out = String::from_str("Encountered substitution errors:\n  ");
        out.append(join(&lines, "\n  ").as_str());
        out
    }
}

/// Replaces each `${name}` token of `sql` by the value that `variables`
/// gives to `name`. All names without a value are collected; if there is
/// one, they are the error and no text is returned.
pub fn substitute_variables(sql: &str, variables: &VariablesAssignment) -> (out: Result<
    String,
    SubstitutionError,
>)
    ensures
        match out {
            Ok(text) => missing(sql@, 0, variables@).len() == 0 && text@ == substituted(
                sql@,
                0,
                variables@,
            ),
            Err(e) => e@.len() > 0 && e@ == missing(sql@, 0, variables@),
        },
{
    let chars = chars_of(sql);
    let n = chars.len();
    let mut text = String::new();
    let mut errors: Vec<String> = Vec::new();
    let ghost s = sql@;
    let ghost values = variables@;
    let ghost mut lost: Seq<Seq<char>> = Seq::empty();
    // `kept` is where the stretch that has not been copied yet starts.
    let mut kept: usize = 0;
    let mut at: usize = 0;
    while at < n
        invariant
            kept <= at <= n,
            n == chars.len(),
            chars@ == s,
            s == sql@,
            values == variables@,
            !has_token(s, kept as int, at as int),
            text@ + substituted(s, kept as int, values) == substituted(s, 0, values),
            lost + missing(s, kept as int, values) == missing(s, 0, values),
            lost == texts(errors@),
        decreases n - at,
    {
        let mut end: usize = n;
        if n - at >= 2 && chars[at] == '$' && chars[at + 1] == '{' {
            end = find_char(&chars, at + 2, n, '}');
        }
        if end < n {
            assert(token_at(s, at as int));
            proof {
                lemma_plain_stretch(s, kept as int, at as int, values);
            }
            let ghost before = text@;
            text.append(sql.substring_char(kept, at));
            let name = sql.substring_char(at + 2, end);
            assert(name@ == token_name(s, at as int));
            let ghost value: Seq<char>;
            match variables.get(name) {
                Some(v) => {
                    text.append(v.as_str());
                    proof {
                        value = v@;
                    }
                },
                None => {
                    errors.push(String::from_str(name));
                    proof {
                        reveal_strlit("ERROR");
                        value = placeholder();
                        assert("ERROR"@ =~= placeholder());
                    }
                    text.append("ERROR");
                },
            }
            proof {
                let here = if values.contains_key(name@) {
                    Seq::<Seq<char>>::empty()
                } else {
                    seq![name@]
                };
                let rest = substituted(s, end + 1, values);
                assert(substituted(s, at as int, values) == value + rest);
                assert(text@ == before + s.subrange(kept as int, at as int) + value);
                assert(text@ + rest =~= before + (s.subrange(kept as int, at as int) + (value
                    + rest)));
                let now = texts(errors@);
                assert(now =~= lost + here);
                assert(missing(s, at as int, values) == here + missing(s, end + 1, values));
                assert((lost + here) + missing(s, end + 1, values) =~= lost + (here + missing(
                    s,
                    end + 1,
                    values,
                )));
                lost = now;
            }
            at = end + 1;
            kept = at;
        } else {
            assert(!token_at(s, at as int));
            at += 1;
        }
    }
    proof {
        lemma_plain_stretch(s, kept as int, n as int, values);
        assert(substituted(s, n as int, values) =~= Seq::<char>::empty());
        assert(text@ + (s.subrange(kept as int, n as int) + Seq::<char>::empty()) =~= text@
            + s.subrange(kept as int, n as int));
        assert(lost + Seq::<Seq<char>>::empty() =~= lost);
    }
    text.append(sql.substring_char(kept, n));
    if errors.len() > 0 {
        Err(SubstitutionError { missing: errors })
    } else {
        Ok(text)
    }
}

} // verus!

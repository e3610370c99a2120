//! Header fields as an ordered list of name/value pairs in which setting a
//! header replaces the one of that name.
//!
//! Names are matched as written. The names this crate sets itself are given
//! by the constants below, in lower case.

use vstd::prelude::*;

verus! {

/// The name under which the body's media type is kept.
pub const CONTENT_TYPE: &'static str = "content-type";

/// The name under which a caller states its user agent.
pub const USER_AGENT: &'static str = "user-agent";

/// A header field as text: its name and its value.
pub type Field = (Seq<char>, Seq<char>);

/// The position of the first field called `name`, or the number of fields
/// where there is none.
pub open spec fn position_of(fields: Seq<Field>, name: Seq<char>) -> int
    decreases fields.len(),
{
    if fields.len() == 0 || fields[0].0 == name {
        0
    } else {
        1 + position_of(fields.skip(1), name)
    }
}

/// The value of the first field called `name`.
pub open spec fn value_of(fields: Seq<Field>, name: Seq<char>) -> Option<Seq<char>> {
    let at = position_of(fields, name);
    if 0 <= at < fields.len() {
        Some(fields[at].1)
    } else {
        None
    }
}

/// The fields after `name` was set to `value`: the first field of that name
/// is replaced where it stands; without one the new field goes to the end.
pub open spec fn with_field(fields: Seq<Field>, name: Seq<char>, value: Seq<char>) -> Seq<Field> {
    let at = position_of(fields, name);
    if 0 <= at < fields.len() {
        fields.update(at, (name, value))
    } else {
        fields.push((name, value))
    }
}

/// Whether no two fields share a name.
pub open spec fn names_distinct(fields: Seq<Field>) -> bool {
    forall|i: int, j: int|
        0 <= i < j < fields.len() ==> (#[trigger] fields[i]).0 != (#[trigger] fields[j]).0
}

/// `position_of` finds the field at `at` when no earlier field has the name.
pub proof fn lemma_position_found(fields: Seq<Field>, name: Seq<char>, at: int)
    requires
        0 <= at < fields.len(),
        fields[at].0 == name,
        forall|j: int| 0 <= j < at ==> (#[trigger] fields[j]).0 != name,
    ensures
        position_of(fields, name) == at,
    decreases at,
{
    if at > 0 {
        assert(fields[0].0 != name);
        assert forall|j: int| 0 <= j < at - 1 implies (#[trigger] fields.skip(1)[j]).0 != name by {
            assert(fields.skip(1)[j] == fields[j + 1]);
        }
        lemma_position_found(fields.skip(1), name, at - 1);
    }
}

/// `position_of` gives the number of fields when none has the name.
pub proof fn lemma_position_absent(fields: Seq<Field>, name: Seq<char>)
    requires
        forall|j: int| 0 <= j < fields.len() ==> (#[trigger] fields[j]).0 != name,
    ensures
        position_of(fields, name) == fields.len(),
    decreases fields.len(),
{
    if fields.len() > 0 {
        assert(fields[0].0 != name);
        assert forall|j: int| 0 <= j < fields.skip(1).len() implies (#[trigger] fields.skip(
            1,
        )[j]).0 != name by {
            assert(fields.skip(1)[j] == fields[j + 1]);
        }
        lemma_position_absent(fields.skip(1), name);
    }
}

/// What `position_of` returns: a position within reach, before which no
/// field has the name, and at which the field has it unless it is the end.
pub proof fn lemma_position_of(fields: Seq<Field>, name: Seq<char>)
    ensures
        0 <= position_of(fields, name) <= fields.len(),
        position_of(fields, name) < fields.len() ==> fields[position_of(fields, name)].0 == name,
        forall|j: int| 0 <= j < position_of(fields, name) ==> (#[trigger] fields[j]).0 != name,
    decreases fields.len(),
{
    if fields.len() > 0 && fields[0].0 != name {
        lemma_position_of(fields.skip(1), name);
        let rest = position_of(fields.skip(1), name);
        assert forall|j: int| 0 <= j < 1 + rest implies (#[trigger] fields[j]).0 != name by {
            if j > 0 {
                assert(fields.skip(1)[j - 1] == fields[j]);
            }
        }
        if rest < fields.skip(1).len() {
            assert(fields.skip(1)[rest] == fields[rest + 1]);
        }
    }
}

/// After a header is set, it has the value given.
pub proof fn lemma_set_then_get(fields: Seq<Field>, name: Seq<char>, value: Seq<char>)
    ensures
        value_of(with_field(fields, name, value), name) == Some(value),
{
    lemma_position_of(fields, name);
    let at = position_of(fields, name);
    let after = with_field(fields, name, value);
    assert forall|j: int| 0 <= j < at implies (#[trigger] after[j]).0 != name by {
        assert(after[j] == fields[j]);
    }
    lemma_position_found(after, name, at);
}

/// Setting a header leaves the value of every other name as it was.
pub proof fn lemma_set_keeps_others(
    fields: Seq<Field>,
    name: Seq<char>,
    value: Seq<char>,
    other: Seq<char>,
)
    requires
        other != name,
    ensures
        value_of(with_field(fields, name, value), other) == value_of(fields, other),
{
    lemma_position_of(fields, name);
    lemma_position_of(fields, other);
    let at = position_of(fields, other);
    let after = with_field(fields, name, value);
    assert forall|j: int| 0 <= j < at implies (#[trigger] after[j]).0 != other by {
        if j < fields.len() && j != position_of(fields, name) {
            assert(after[j] == fields[j]);
        }
    }
    if at < fields.len() {
        assert(after[at] == fields[at]);
        lemma_position_found(after, other, at);
    } else {
        assert forall|j: int| 0 <= j < after.len() implies (#[trigger] after[j]).0 != other by {
            if j < fields.len() && j != position_of(fields, name) {
                assert(after[j] == fields[j]);
            }
        }
        lemma_position_absent(after, other);
    }
}

/// Setting a header never makes a name occur twice.
pub proof fn lemma_set_keeps_names_distinct(fields: Seq<Field>, name: Seq<char>, value: Seq<char>)
    requires
        names_distinct(fields),
    ensures
        names_distinct(with_field(fields, name, value)),
{
    lemma_position_of(fields, name);
    let at = position_of(fields, name);
    let after = with_field(fields, name, value);
    assert forall|i: int, j: int| 0 <= i < j < after.len() implies (#[trigger] after[i]).0 != (
    #[trigger] after[j]).0 by {
        if at < fields.len() {
            assert(after[i].0 == fields[i].0);
            assert(after[j].0 == fields[j].0);
        } else if j < fields.len() {
            assert(after[i] == fields[i]);
            assert(after[j] == fields[j]);
        } else {
            assert(after[i] == fields[i]);
        }
    }
}

/// The header fields of a request or of a response.
#[derive(Debug)]
pub struct Headers {
    entries: Vec<(String, String)>,
}

impl View for Headers {
    type V = Seq<Field>;

    closed spec fn view(&self) -> Seq<Field> {
        self.entries@.map_values(|e: (String, String)| (e.0@, e.1@))
    }
}

impl Headers {
    /// No header fields.
    pub fn new() -> (headers: Headers)
        ensures
            headers@ == Seq::<Field>::empty(),
    {
        let headers = Headers { entries: Vec::new() };
        assert(headers@ =~= Seq::<Field>::empty());
        headers
    }

    /// The number of fields.
    pub fn len(&self) -> (n: usize)
        ensures
            n == self@.len(),
    {
        self.entries.len()
    }

    /// Sets the header `name` to `value`, in place of the field of that
    /// name if there is one.
    pub fn set(&mut self, name: String, value: String)
        ensures
            final(self)@ == with_field(old(self)@, name@, value@),
    {
        let mut i: usize = 0;
        while i < self.entries.len()
            invariant
                i <= self.entries.len(),
                *self == *old(self),
                forall|j: int| 0 <= j < i ==> (#[trigger] self@[j]).0 != name@,
            decreases self.entries.len() - i,
        {
            if self.entries[i].0 == name {
                proof {
                    lemma_position_found(self@, name@, i as int);
                }
                self.entries[i] = (name, value);
                assert(self@ =~= with_field(old(self)@, name@, value@));
                return ;
            }
            i += 1;
        }
        proof {
            lemma_position_absent(self@, name@);
        }
        self.entries.push((name, value));
        assert(self@ =~= with_field(old(self)@, name@, value@));
    }

    /// The value of the header `name`.
    pub fn get(&self, name: &str) -> (value: Option<&str>)
        ensures
            match value {
                Some(v) => value_of(self@, name@) == Some(v@),
                None => value_of(self@, name@) is None,
            },
    {
        let wanted = name.to_owned();
        let mut i: usize = 0;
        while i < self.entries.len()
            invariant
                i <= self.entries.len(),
                wanted@ == name@,
                forall|j: int| 0 <= j < i ==> (#[trigger] self@[j]).0 != name@,
            decreases self.entries.len() - i,
        {
            if self.entries[i].0 == wanted {
                proof {
                    lemma_position_found(self@, name@, i as int);
                }
                return Some(self.entries[i].1.as_str());
            }
            i += 1;
        }
        proof {
            lemma_position_absent(self@, name@);
        }
        None
    }

    /// The name and the value of the field at position `i`.
    pub fn field(&self, i: usize) -> (field: (&str, &str))
        requires
            i < self@.len(),
        ensures
            (field.0@, field.1@) == self@[i as int],
    {
        (self.entries[i].0.as_str(), self.entries[i].1.as_str())
    }
}

impl Clone for Headers {
    fn clone(&self) -> (copy: Headers)
        ensures
            copy@ == self@,
    {
        let mut entries: Vec<(String, String)> = Vec::new();
        let mut i: usize = 0;
        while i < self.entries.len()
            invariant
                i <= self.entries.len(),
                entries@.len() == i,
                forall|j: int| 0 <= j < i ==> entries@[j] == self.entries@[j],
            decreases self.entries.len() - i,
        {
            entries.push((self.entries[i].0.clone(), self.entries[i].1.clone()));
            i += 1;
        }
        let copy = Headers { entries };
        assert(copy@ =~= self@);
        copy
    }
}

} // verus!

//! The compact identifiers carried by message components.
//!
//! An identifier is a run of fields separated by `;`: the tag `MAK`, the name
//! of a kind, then any number of `key=value` arguments.

use vstd::prelude::*;
use crate::error::BotError;
use crate::strmap::{lookup, StringMap};
use crate::text::{
    lemma_split_append, lemma_split_whole, same_text, spec_split, split, split_once, texts,
};

verus! {

/// The longest identifier that the platform takes, in characters. Whoever
/// builds an identifier has to stay within it.
pub const CUSTOM_ID_LIMIT: usize = 100;

/// The kinds of component that the bot creates.
#[derive(Debug, Clone, Copy, PartialEq, Eq)]
pub enum CustomIdType {
    ListPermissions,
}

/// The first piece of `s` up to `sep` and the rest after it.
pub open spec fn cut_at(s: Seq<char>, sep: char) -> (Seq<char>, Seq<char>) {
    let i = first_index(s, sep);
    (s.take(i), s.skip(i + 1))
}

/// The position of the first `c` in `s`, or the length of `s` without one.
pub open spec fn first_index(s: Seq<char>, c: char) -> int
    decreases s.len(),
{
    if s.len() == 0 || s[0] == c {
        0
    } else {
        1 + first_index(s.drop_first(), c)
    }
}

/// A position before which there is no `c`, and which holds one, is the first.
pub proof fn lemma_first_index(s: Seq<char>, c: char, i: int)
    requires
        0 <= i < s.len(),
        s[i] == c,
        forall|j: int| 0 <= j < i ==> s[j] != c,
    ensures
        first_index(s, c) == i,
    decreases i,
{
    if i > 0 {
        let rest = s.drop_first();
        assert(rest[i - 1] == s[i]);
        assert forall|j: int| 0 <= j < i - 1 implies rest[j] != c by {
            assert(rest[j] == s[j + 1]);
        }
        lemma_first_index(rest, c, i - 1);
    }
}

/// What the argument fields of an identifier hold: each field cut at its
/// first `=`, or the first field that has none.
pub open spec fn spec_parse_args(items: Seq<Seq<char>>) -> Result<
    Seq<(Seq<char>, Seq<char>)>,
    Seq<char>,
>
    decreases items.len(),
{
    if items.len() == 0 {
        Ok(Seq::empty())
    } else {
        match spec_parse_args(items.drop_last()) {
            Err(bad) => Err(bad),
            Ok(pairs) => if items.last().contains('=') {
                Ok(pairs.push(cut_at(items.last(), '=')))
            } else {
                Err(items.last())
            },
        }
    }
}

/// The map that results from storing the pairs one after another.
pub open spec fn args_map(pairs: Seq<(Seq<char>, Seq<char>)>) -> Map<Seq<char>, Seq<char>>
    decreases pairs.len(),
{
    if pairs.len() == 0 {
        Map::empty()
    } else {
        args_map(pairs.drop_last()).insert(pairs.last().0, pairs.last().1)
    }
}

/// What an identifier holds: its kind and its arguments, or the message of
/// the error. A field without `=` among the arguments is reported before an
/// unknown kind.
pub open spec fn spec_parse_custom_id(id: Seq<char>) -> Result<
    (CustomIdType, Map<Seq<char>, Seq<char>>),
    Seq<char>,
> {
    let fields = spec_split(id, ';');
    match spec_parse_args(fields.skip(2)) {
        Err(bad) => Err("Invalid CustomID argument "@ + bad),
        Ok(pairs) => if fields[1] == "ListPermissions"@ {
            Ok((CustomIdType::ListPermissions, args_map(pairs)))
        } else {
            Err("Invalid CustomID type "@ + fields[1])
        },
    }
}

/// The arguments as they are written in an identifier.
pub open spec fn spec_args_text(pairs: Seq<(Seq<char>, Seq<char>)>) -> Seq<char>
    decreases pairs.len(),
{
    if pairs.len() == 0 {
        Seq::empty()
    } else {
        spec_args_text(pairs.drop_last()) + ";"@ + pairs.last().0 + "="@ + pairs.last().1
    }
}

/// A text with a separator in it splits into at least two pieces.
pub proof fn lemma_split_two(s: Seq<char>, sep: char)
    requires
        s.contains(sep),
    ensures
        spec_split(s, sep).len() >= 2,
    decreases s.len(),
{
    crate::text::lemma_split_nonempty(s.drop_last(), sep);
    if s.last() != sep {
        let i = choose|i: int| 0 <= i < s.len() && s[i] == sep;
        assert(s.drop_last()[i] == sep);
        lemma_split_two(s.drop_last(), sep);
    }
}

impl CustomIdType {
    /// The name by which the kind is written in an identifier.
    pub open spec fn spec_name(&self) -> Seq<char> {
        match self {
            CustomIdType::ListPermissions => "ListPermissions"@,
        }
    }

    /// The name by which the kind is written in an identifier.
    pub fn name(&self) -> (s: &'static str)
        ensures
            s@ == self.spec_name(),
    {
        match self {
            CustomIdType::ListPermissions => "ListPermissions",
        }
    }

    /// Reads the name of a kind.
    pub fn from_str(from: &str) -> (r: Result<Self, BotError>)
        ensures
            match r {
                Ok(ty) => from@ == ty.spec_name(),
                Err(e) => {
                    &&& from@ != "ListPermissions"@
                    &&& e matches BotError::InvalidRequest(msg)
                    &&& msg@ == "Invalid CustomID type "@ + from@
                },
            },
    {
        if same_text(from, "ListPermissions") {
            Ok(CustomIdType::ListPermissions)
        } else {
            let mut msg = String::from_str("Invalid CustomID type ");
            msg.append(from);
            Err(BotError::InvalidRequest(msg))
        }
    }
}

/// Reads an identifier: the field after the tag names the kind, the fields
/// after that are `key=value` arguments.
pub fn parse_custom_id(custom_id: &str) -> (r: Result<(CustomIdType, StringMap<String>), BotError>)
    requires
        custom_id@.contains(';'),
    ensures
        match r {
            Ok((ty, args)) => args.wf() && spec_parse_custom_id(custom_id@) == Ok::<
                (CustomIdType, Map<Seq<char>, Seq<char>>),
                Seq<char>,
            >((ty, args.text_map())),
            Err(e) => {
                &&& spec_parse_custom_id(custom_id@) is Err
                &&& e matches BotError::InvalidRequest(msg)
                &&& msg@ == spec_parse_custom_id(custom_id@)->Err_0
            },
        },
{
    let parts = split(custom_id, ';');
    let ghost fields = spec_split(custom_id@, ';');
    let ghost items = fields.skip(2);
    proof {
        lemma_split_two(custom_id@, ';');
    }
    let mut map: StringMap<String> = StringMap::new();
    let ghost mut pairs: Seq<(Seq<char>, Seq<char>)> = Seq::empty();
    let mut i: usize = 2;
    proof {
        assert(items.take(0) =~= Seq::<Seq<char>>::empty());
        assert(map.text_map() =~= args_map(pairs));
    }
    while i < parts.len()
        invariant
            2 <= i <= parts.len(),
            texts(parts@) == fields,
            fields == spec_split(custom_id@, ';'),
            items == fields.skip(2),
            map.wf(),
            spec_parse_args(items.take(i - 2)) == Ok::<Seq<(Seq<char>, Seq<char>)>, Seq<char>>(
                pairs,
            ),
            map.text_map() == args_map(pairs),
        decreases parts.len() - i,
    {
        let item = parts[i].as_str();
        let ghost upto = items.take(i - 2 + 1);
        proof {
            assert(texts(parts@)[i as int] == item@);
            assert(upto.drop_last() =~= items.take(i - 2));
            assert(upto.last() == item@);
        }
        match split_once(item, '=') {
            None => {
                let mut msg = String::from_str("Invalid CustomID argument ");
                msg.append(item);
                proof {
                    lemma_args_error_stays(items, i - 2 + 1);
                    assert(items.take(items.len() as int) =~= items);
                }
                return Err(BotError::InvalidRequest(msg));
            },
            Some((key, value)) => {
                proof {
                    assert(item@[key@.len() as int] == '=');
                    assert forall|j: int| 0 <= j < key@.len() implies item@[j] != '=' by {
                        assert(item@[j] == key@[j]);
                    }
                    lemma_first_index(item@, '=', key@.len() as int);
                    assert(item@.take(key@.len() as int) =~= key@);
                    assert(item@.skip(key@.len() as int + 1) =~= value@);
                    assert(item@.contains('='));
                    let ghost old_pairs = pairs;
                    pairs = old_pairs.push((key@, value@));
                    assert(pairs.drop_last() =~= old_pairs);
                }
                let ghost before = map;
                let ghost k = key@;
                let ghost v = value@;
                map.insert(key, value);
                proof {
                    assert(map@ == before@.insert(k, value));
                    assert(map.text_map() =~= before.text_map().insert(k, v));
                    assert(args_map(pairs) == args_map(pairs.drop_last()).insert(k, v));
                }
            },
        }
        i += 1;
    }
    proof {
        assert(items.take(i - 2) =~= items);
        assert(texts(parts@)[1] == parts@[1]@);
    }
    match CustomIdType::from_str(parts[1].as_str()) {
        Ok(ty) => Ok((ty, map)),
        Err(e) => Err(e),
    }
}

/// Once a field without `=` has been met, the rest of the fields do not
/// change the outcome.
pub proof fn lemma_args_error_stays(items: Seq<Seq<char>>, k: int)
    requires
        0 <= k <= items.len(),
        spec_parse_args(items.take(k)) is Err,
    ensures
        spec_parse_args(items) == spec_parse_args(items.take(k)),
    decreases items.len() - k,
{
    if k == items.len() {
        assert(items.take(k) =~= items);
    } else {
        assert(items.take(k + 1).drop_last() =~= items.take(k));
        lemma_args_error_stays(items, k + 1);
    }
}

/// Writes an identifier for a kind and its arguments.
pub fn build_custom_id(ty: &CustomIdType, map: &Option<StringMap<String>>) -> (s: String)
    ensures
        s@ == "MAK;"@ + ty.spec_name() + match map {
            Some(m) => spec_args_text(m.text_pairs()),
            None => Seq::<char>::empty(),
        },
{
    let mut buf = String::from_str("MAK;");
    buf.append(ty.name());
    if let Some(m) = map {
        let ghost head = buf@;
        let mut i: usize = 0;
        proof {
            assert(m.text_pairs().take(0) =~= Seq::<(Seq<char>, Seq<char>)>::empty());
            assert(buf@ =~= head + spec_args_text(m.text_pairs().take(0)));
        }
        let n = m.len();
        while i < n
            invariant
                i <= n,
                n == m.text_pairs().len(),
                n == m.pairs().len(),
                buf@ == head + spec_args_text(m.text_pairs().take(i as int)),
            decreases n - i,
        {
            let ghost next = m.text_pairs().take(i + 1);
            proof {
                assert(next.drop_last() =~= m.text_pairs().take(i as int));
                assert(next.last() == m.text_pairs()[i as int]);
            }
            buf.append(";");
            buf.append(m.key_at(i).as_str());
            buf.append("=");
            buf.append(m.value_at(i).as_str());
            proof {
                assert(buf@ =~= head + spec_args_text(next));
            }
            i += 1;
        }
        proof {
            assert(m.text_pairs().take(n as int) =~= m.text_pairs());
        }
    } else {
        assert(buf@ =~= "MAK;"@ + ty.spec_name() + Seq::<char>::empty());
    }
    buf
}

/// Whether the pairs can be written into an identifier and read back: no key
/// or value holds a `;`, and no key holds a `=`.
pub open spec fn writable(pairs: Seq<(Seq<char>, Seq<char>)>) -> bool {
    forall|i: int|
        0 <= i < pairs.len() ==> !(#[trigger] pairs[i]).0.contains(';') && !pairs[i].0.contains(
            '=',
        ) && !pairs[i].1.contains(';')
}

/// The argument fields as they are written: each key, a `=`, and its value.
pub open spec fn written_items(pairs: Seq<(Seq<char>, Seq<char>)>) -> Seq<Seq<char>> {
    Seq::new(pairs.len(), |i: int| pairs[i].0 + "="@ + pairs[i].1)
}

/// The fields of a written identifier are the tag, the name of the kind, and
/// the argument fields.
pub proof fn lemma_fields_of_built(ty: CustomIdType, pairs: Seq<(Seq<char>, Seq<char>)>)
    requires
        writable(pairs),
    ensures
        spec_split("MAK;"@ + ty.spec_name() + spec_args_text(pairs), ';') == seq![
            "MAK"@,
            ty.spec_name(),
        ] + written_items(pairs),
    decreases pairs.len(),
{
    reveal_strlit("MAK;");
    reveal_strlit("MAK");
    reveal_strlit("ListPermissions");
    reveal_strlit(";");
    reveal_strlit("=");
    let name = ty.spec_name();
    if pairs.len() == 0 {
        assert(!"MAK"@.contains(';'));
        assert(!name.contains(';'));
        lemma_split_whole("MAK"@, ';');
        lemma_split_append("MAK"@, name, ';');
        assert("MAK;"@ + name + spec_args_text(pairs) =~= "MAK"@ + seq![';'] + name);
        assert(seq!["MAK"@].push(name) =~= seq!["MAK"@, name] + written_items(pairs));
    } else {
        let rest = pairs.drop_last();
        let last = pairs.last();
        assert(writable(rest)) by {
            assert forall|i: int| 0 <= i < rest.len() implies !(#[trigger] rest[i]).0.contains(';')
                && !rest[i].0.contains('=') && !rest[i].1.contains(';') by {
                assert(rest[i] == pairs[i]);
            }
        }
        lemma_fields_of_built(ty, rest);
        let item = last.0 + "="@ + last.1;
        assert(pairs[pairs.len() - 1] == last);
        assert(!item.contains(';')) by {
            if item.contains(';') {
                let i = choose|i: int| 0 <= i < item.len() && item[i] == ';';
                if i < last.0.len() {
                    assert(last.0[i] == ';');
                } else if i == last.0.len() {
                    assert(item[i] == '=');
                } else {
                    assert(last.1[i - last.0.len() - 1] == ';');
                }
            }
        }
        let before = "MAK;"@ + name + spec_args_text(rest);
        assert("MAK;"@ + name + spec_args_text(pairs) =~= before + seq![';'] + item);
        lemma_split_append(before, item, ';');
        assert((seq!["MAK"@, name] + written_items(rest)).push(item) =~= seq!["MAK"@, name]
            + written_items(pairs));
    }
}

/// The argument fields that were written read back as the pairs.
pub proof fn lemma_items_read_back(pairs: Seq<(Seq<char>, Seq<char>)>)
    requires
        writable(pairs),
    ensures
        spec_parse_args(written_items(pairs)) == Ok::<Seq<(Seq<char>, Seq<char>)>, Seq<char>>(
            pairs,
        ),
    decreases pairs.len(),
{
    reveal_strlit("=");
    let items = written_items(pairs);
    if pairs.len() == 0 {
        assert(pairs =~= Seq::<(Seq<char>, Seq<char>)>::empty());
    } else {
        let rest = pairs.drop_last();
        let last = pairs.last();
        assert(pairs[pairs.len() - 1] == last);
        assert(writable(rest)) by {
            assert forall|i: int| 0 <= i < rest.len() implies !(#[trigger] rest[i]).0.contains(';')
                && !rest[i].0.contains('=') && !rest[i].1.contains(';') by {
                assert(rest[i] == pairs[i]);
            }
        }
        lemma_items_read_back(rest);
        assert(items.drop_last() =~= written_items(rest));
        let item = last.0 + "="@ + last.1;
        assert(items.last() == item);
        let k = last.0.len() as int;
        assert(item[k] == '=');
        assert(item.contains('='));
        assert forall|j: int| 0 <= j < k implies item[j] != '=' by {
            assert(item[j] == last.0[j]);
            assert(last.0.contains(last.0[j]));
        }
        lemma_first_index(item, '=', k);
        assert(item.take(k) =~= last.0);
        assert(item.skip(k + 1) =~= last.1);
        assert(cut_at(item, '=') == last);
        assert(rest.push(last) =~= pairs);
    }
}

/// What was written into an identifier is read back from it: the kind, and
/// the arguments as a map, a later pair replacing an earlier one with the
/// same key.
pub proof fn lemma_build_then_parse(ty: CustomIdType, pairs: Seq<(Seq<char>, Seq<char>)>)
    requires
        writable(pairs),
    ensures
        spec_parse_custom_id("MAK;"@ + ty.spec_name() + spec_args_text(pairs)) == Ok::<
            (CustomIdType, Map<Seq<char>, Seq<char>>),
            Seq<char>,
        >((ty, args_map(pairs))),
{
    lemma_fields_of_built(ty, pairs);
    lemma_items_read_back(pairs);
    let fields = seq!["MAK"@, ty.spec_name()] + written_items(pairs);
    assert(fields.skip(2) =~= written_items(pairs));
    assert(fields[1] == ty.spec_name());
}

/// The entries of a map with their values read as text.
pub open spec fn texts_of(pairs: Seq<(Seq<char>, String)>) -> Seq<(Seq<char>, Seq<char>)> {
    Seq::new(pairs.len(), |i: int| (pairs[i].0, pairs[i].1@))
}

/// Storing the entries one after another gives each key the value of its
/// last entry.
pub proof fn lemma_args_map_is_lookup(pairs: Seq<(Seq<char>, String)>)
    ensures
        args_map(texts_of(pairs)) == Map::new(
            |k: Seq<char>| lookup(pairs, k) is Some,
            |k: Seq<char>| lookup(pairs, k)->0@,
        ),
    decreases pairs.len(),
{
    let m = Map::new(|k: Seq<char>| lookup(pairs, k) is Some, |k: Seq<char>| lookup(pairs, k)->0@);
    if pairs.len() == 0 {
        assert(args_map(texts_of(pairs)) =~= m);
    } else {
        lemma_args_map_is_lookup(pairs.drop_last());
        assert(texts_of(pairs).drop_last() =~= texts_of(pairs.drop_last()));
        assert(texts_of(pairs).last() == (pairs.last().0, pairs.last().1@));
        assert(args_map(texts_of(pairs)) =~= m);
    }
}

/// An identifier built from a kind and a map of arguments is read back as
/// that kind and that map, as long as the arguments can be written.
pub proof fn lemma_identifier_round_trip(ty: CustomIdType, args: StringMap<String>)
    requires
        writable(args.text_pairs()),
    ensures
        spec_parse_custom_id("MAK;"@ + ty.spec_name() + spec_args_text(args.text_pairs())) == Ok::<
            (CustomIdType, Map<Seq<char>, Seq<char>>),
            Seq<char>,
        >((ty, args.text_map())),
{
    lemma_build_then_parse(ty, args.text_pairs());
    lemma_args_map_is_lookup(args.pairs());
    assert(texts_of(args.pairs()) =~= args.text_pairs());
    assert(args_map(args.text_pairs()) =~= args.text_map());
}

} // verus!

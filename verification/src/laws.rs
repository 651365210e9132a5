//! What holds of the jar's operations taken together, of the header values
//! that tell of them, and of the slot.
//!
//! The operations of a [`CookieManager`](crate::manager::CookieManager) run
//! one at a time on the jar behind its lock, whichever clone they come from.
//! So what the jar holds after any number of them is what a sequence of
//! stores and removals makes of its cookies, and the laws below are stated
//! of such sequences.

use vstd::prelude::*;
use vstd::utf8::char_is_scalar;
use vstd::utf8::encode_scalar;
use vstd::utf8::encode_utf8;

use crate::cookie::CookieView;
use crate::cookie::decimal;
use crate::cookie::digit;
use crate::cookie::flag;
use crate::cookie::numeral_of;
use crate::cookie::optional;
use crate::cookie::word_of;
use crate::headers::all_sendable;
use crate::headers::is_sendable;
use crate::jar::Change;
use crate::jar::change_line;
use crate::jar::is_listing;
use crate::jar::lines_of;
use crate::jar::lookup;
use crate::jar::removal_suffix;
use crate::jar::serializes;
use crate::manager::CookieManager;
use crate::middleware::EmitError;
use crate::middleware::bytes_of;
use crate::middleware::emits;
use crate::outcome::ParseOutcome;
use crate::outcome::Rejection;
use crate::outcome::retrieval;
use crate::text::lemma_precedes_irreflexive;
use crate::text::lemma_precedes_total;
use crate::text::lemma_precedes_transitive;
use crate::text::precedes;

verus! {

/// One operation on a jar.
pub enum Operation {
    /// Stores a cookie under its name.
    Store(CookieView),
    /// Removes the cookie of a name.
    Remove(Seq<char>),
}

impl Operation {
    /// The name that the operation is about.
    pub open spec fn name(self) -> Seq<char> {
        match self {
            Operation::Store(cookie) => cookie.name,
            Operation::Remove(name) => name,
        }
    }

    /// What the operation leaves under its name.
    pub open spec fn leaves(self) -> Option<CookieView> {
        match self {
            Operation::Store(cookie) => Some(cookie),
            Operation::Remove(_) => None,
        }
    }

    /// What the operation records as the change under its name.
    pub open spec fn change(self) -> Change {
        match self {
            Operation::Store(cookie) => Change::Stored(cookie),
            Operation::Remove(_) => Change::Removed,
        }
    }
}

/// The cookies of a jar after one operation, as
/// [`insert`](crate::jar::insert) and [`discard`](crate::jar::discard) leave
/// them.
pub open spec fn apply(cookies: Map<Seq<char>, CookieView>, operation: Operation) -> Map<
    Seq<char>,
    CookieView,
> {
    match operation {
        Operation::Store(cookie) => cookies.insert(cookie.name, cookie),
        Operation::Remove(name) => cookies.remove(name),
    }
}

/// The cookies of a jar after a sequence of operations, the first one
/// first.
pub open spec fn run(cookies: Map<Seq<char>, CookieView>, operations: Seq<Operation>) -> Map<
    Seq<char>,
    CookieView,
>
    decreases operations.len(),
{
    if operations.len() == 0 {
        cookies
    } else {
        apply(run(cookies, operations.drop_last()), operations.last())
    }
}

/// The changes of a jar after a sequence of operations, the first one
/// first.
pub open spec fn record(changes: Map<Seq<char>, Change>, operations: Seq<Operation>) -> Map<
    Seq<char>,
    Change,
>
    decreases operations.len(),
{
    if operations.len() == 0 {
        changes
    } else {
        record(changes, operations.drop_last()).insert(
            operations.last().name(),
            operations.last().change(),
        )
    }
}

/// The last of `operations` that is about `name`, if there is one.
pub open spec fn last_about(operations: Seq<Operation>, name: Seq<char>) -> Option<Operation>
    decreases operations.len(),
{
    if operations.len() == 0 {
        None
    } else if operations.last().name() == name {
        Some(operations.last())
    } else {
        last_about(operations.drop_last(), name)
    }
}

/// A cookie that was stored is found under its name, and once its name was
/// removed nothing is found under it.
pub proof fn law_stored_is_found_until_removed(
    cookies: Map<Seq<char>, CookieView>,
    cookie: CookieView,
)
    ensures
        lookup(cookies.insert(cookie.name, cookie), cookie.name) == Some(cookie),
        lookup(cookies.insert(cookie.name, cookie).remove(cookie.name), cookie.name) is None,
{
}

/// An operation changes nothing under a name that it is not about.
pub proof fn law_other_names_are_kept(
    cookies: Map<Seq<char>, CookieView>,
    operation: Operation,
    name: Seq<char>,
)
    requires
        name != operation.name(),
    ensures
        lookup(apply(cookies, operation), name) == lookup(cookies, name),
{
}

/// After any sequence of operations, a name holds what the last operation
/// about it left, and a name that none was about holds what it held before.
/// So no operation is lost but to a later one about the same name, in
/// whatever order the operations of several clones came to run.
pub proof fn law_last_writer_wins(
    cookies: Map<Seq<char>, CookieView>,
    operations: Seq<Operation>,
    name: Seq<char>,
)
    ensures
        lookup(run(cookies, operations), name) == match last_about(operations, name) {
            Some(operation) => operation.leaves(),
            None => lookup(cookies, name),
        },
    decreases operations.len(),
{
    if operations.len() > 0 {
        law_last_writer_wins(cookies, operations.drop_last(), name);
    }
}

/// After any sequence of operations on a jar without changes, the changes
/// are the names that an operation was about, each with what the last
/// operation about it recorded.
pub proof fn law_changes_are_the_last_operations(operations: Seq<Operation>, name: Seq<char>)
    ensures
        record(Map::empty(), operations).dom().contains(name) <==> last_about(
            operations,
            name,
        ) is Some,
        last_about(operations, name) matches Some(operation) ==> record(
            Map::empty(),
            operations,
        )[name] == operation.change(),
    decreases operations.len(),
{
    if operations.len() > 0 {
        law_changes_are_the_last_operations(operations.drop_last(), name);
    }
}

/// Two operations about different names give the same cookies in either
/// order.
pub proof fn law_different_names_commute(
    cookies: Map<Seq<char>, CookieView>,
    first: Operation,
    second: Operation,
)
    requires
        first.name() != second.name(),
    ensures
        apply(apply(cookies, first), second) == apply(apply(cookies, second), first),
{
    assert(apply(apply(cookies, first), second) =~= apply(apply(cookies, second), first));
}

/// A set of names has one listing at most.
pub proof fn law_listing_is_unique(
    first: Seq<Seq<char>>,
    second: Seq<Seq<char>>,
    set: Set<Seq<char>>,
)
    requires
        is_listing(first, set),
        is_listing(second, set),
    ensures
        first == second,
    decreases first.len(),
{
    if first.len() == 0 {
        if second.len() > 0 {
            assert(set.contains(second[0]));
            assert(first.contains(second[0]));
        }
        assert(first =~= second);
    } else {
        let a = first[0];
        assert(set.contains(a));
        assert(second.contains(a));
        let j = choose|j: int| 0 <= j < second.len() && second[j] == a;
        let b = second[0];
        assert(set.contains(b));
        assert(first.contains(b));
        let k = choose|k: int| 0 <= k < first.len() && first[k] == b;
        if a != b {
            assert(k > 0 && j > 0);
            assert(precedes(first[0], first[k]));
            assert(precedes(second[0], second[j]));
            lemma_precedes_transitive(a, b, a);
            lemma_precedes_irreflexive(a);
        }
        let rest = set.remove(a);
        let first_rest = first.skip(1);
        let second_rest = second.skip(1);
        assert(is_listing(first_rest, rest)) by {
            lemma_tail_lists_the_rest(first, set);
        }
        assert(is_listing(second_rest, rest)) by {
            lemma_tail_lists_the_rest(second, set);
        }
        law_listing_is_unique(first_rest, second_rest, rest);
        assert(first =~= seq![a] + first_rest);
        assert(second =~= seq![b] + second_rest);
    }
}

/// A listing without its first name lists the set without that name.
proof fn lemma_tail_lists_the_rest(names: Seq<Seq<char>>, set: Set<Seq<char>>)
    requires
        is_listing(names, set),
        names.len() > 0,
    ensures
        is_listing(names.skip(1), set.remove(names[0])),
{
    let tail = names.skip(1);
    let rest = set.remove(names[0]);
    assert forall|i: int, j: int| 0 <= i < j < tail.len() implies precedes(tail[i], tail[j]) by {
        assert(precedes(names[i + 1], names[j + 1]));
    }
    assert forall|i: int| 0 <= i < tail.len() implies rest.contains(#[trigger] tail[i]) by {
        assert(set.contains(names[i + 1]));
        assert(precedes(names[0], names[i + 1]));
        lemma_precedes_irreflexive(names[0]);
    }
    assert forall|n: Seq<char>| rest.contains(n) implies tail.contains(n) by {
        assert(names.contains(n));
        let i = choose|i: int| 0 <= i < names.len() && names[i] == n;
        assert(i > 0);
        assert(tail[i - 1] == n);
    }
}

/// The listing `names` with `name` put in its place.
pub open spec fn placed(names: Seq<Seq<char>>, name: Seq<char>) -> Seq<Seq<char>>
    decreases names.len(),
{
    if names.len() == 0 {
        seq![name]
    } else if precedes(name, names[0]) {
        seq![name] + names
    } else {
        seq![names[0]] + placed(names.skip(1), name)
    }
}

/// A listing with a new name put in its place lists the set with that name.
proof fn lemma_placed_lists(names: Seq<Seq<char>>, set: Set<Seq<char>>, name: Seq<char>)
    requires
        is_listing(names, set),
        !set.contains(name),
    ensures
        is_listing(placed(names, name), set.insert(name)),
    decreases names.len(),
{
    let whole = set.insert(name);
    let put = placed(names, name);
    if names.len() == 0 {
        assert(put[0] == name);
        assert forall|n: Seq<char>| whole.contains(n) implies put.contains(n) by {
            if n != name {
                assert(names.contains(n));
            }
            assert(put[0] == n);
        }
    } else if precedes(name, names[0]) {
        assert forall|i: int, j: int| 0 <= i < j < put.len() implies precedes(put[i], put[j]) by {
            if i == 0 {
                if j > 1 {
                    assert(precedes(names[0], names[j - 1]));
                    lemma_precedes_transitive(name, names[0], names[j - 1]);
                }
            } else {
                assert(precedes(names[i - 1], names[j - 1]));
            }
        }
        assert forall|i: int| 0 <= i < put.len() implies whole.contains(#[trigger] put[i]) by {
            if i > 0 {
                assert(set.contains(names[i - 1]));
            }
        }
        assert forall|n: Seq<char>| whole.contains(n) implies put.contains(n) by {
            if n == name {
                assert(put[0] == n);
            } else {
                assert(names.contains(n));
                let i = choose|i: int| 0 <= i < names.len() && names[i] == n;
                assert(put[i + 1] == n);
            }
        }
    } else {
        let head = names[0];
        let tail = names.skip(1);
        let rest = set.remove(head);
        let inner = placed(tail, name);
        assert(set.contains(head));
        lemma_precedes_total(name, head);
        lemma_tail_lists_the_rest(names, set);
        lemma_placed_lists(tail, rest, name);
        assert(put =~= seq![head] + inner);
        assert forall|i: int, j: int| 0 <= i < j < put.len() implies precedes(put[i], put[j]) by {
            if i == 0 {
                let e = inner[j - 1];
                assert(rest.insert(name).contains(e));
                if e != name {
                    assert(names.contains(e));
                    let k = choose|k: int| 0 <= k < names.len() && names[k] == e;
                    assert(k > 0);
                    assert(precedes(names[0], names[k]));
                }
            } else {
                assert(precedes(inner[i - 1], inner[j - 1]));
            }
        }
        assert forall|i: int| 0 <= i < put.len() implies whole.contains(#[trigger] put[i]) by {
            if i > 0 {
                assert(rest.insert(name).contains(inner[i - 1]));
            }
        }
        assert forall|n: Seq<char>| whole.contains(n) implies put.contains(n) by {
            if n == head {
                assert(put[0] == n);
            } else {
                assert(rest.insert(name).contains(n));
                assert(inner.contains(n));
                let i = choose|i: int| 0 <= i < inner.len() && inner[i] == n;
                assert(put[i + 1] == n);
            }
        }
    }
}

/// A finite set of names has a listing.
pub proof fn law_listing_exists(set: Set<Seq<char>>)
    requires
        set.finite(),
    ensures
        exists|names: Seq<Seq<char>>| is_listing(names, set),
    decreases set.len(),
{
    if set.len() == 0 {
        assert(set =~= Set::empty());
        assert(is_listing(Seq::<Seq<char>>::empty(), set));
    } else {
        let name = set.choose();
        let rest = set.remove(name);
        law_listing_exists(rest);
        let names = choose|names: Seq<Seq<char>>| is_listing(names, rest);
        lemma_placed_lists(names, rest, name);
        assert(rest.insert(name) =~= set);
        assert(is_listing(placed(names, name), set));
    }
}

/// The changes of a jar, being finitely many, have a serialization.
pub proof fn law_serialization_exists(changes: Map<Seq<char>, Change>)
    requires
        changes.dom().finite(),
    ensures
        exists|lines: Seq<Seq<char>>| serializes(lines, changes),
{
    law_listing_exists(changes.dom());
    let names = choose|names: Seq<Seq<char>>| is_listing(names, changes.dom());
    let lines = Seq::new(names.len(), |i: int| change_line(names[i], changes[names[i]]));
    assert(is_listing(names, changes.dom()));
    assert(serializes(lines, changes));
}

/// The changes of a jar have one serialization at most: the header values
/// and their order are fixed by the changes.
pub proof fn law_serialization_is_unique(
    first: Seq<Seq<char>>,
    second: Seq<Seq<char>>,
    changes: Map<Seq<char>, Change>,
)
    requires
        serializes(first, changes),
        serializes(second, changes),
    ensures
        first == second,
{
    let names = choose|names: Seq<Seq<char>>|
        {
            &&& #[trigger] is_listing(names, changes.dom())
            &&& first.len() == names.len()
            &&& forall|i: int|
                0 <= i < names.len() ==> first[i] == change_line(names[i], changes[names[i]])
        };
    let others = choose|names: Seq<Seq<char>>|
        {
            &&& #[trigger] is_listing(names, changes.dom())
            &&& second.len() == names.len()
            &&& forall|i: int|
                0 <= i < names.len() ==> second[i] == change_line(names[i], changes[names[i]])
        };
    law_listing_is_unique(names, others, changes.dom());
    assert(first =~= second);
}

/// A jar without changes serializes to no header value, and a jar whose one
/// change is a stored cookie serializes to that cookie's header value alone.
pub proof fn law_serialization_of_few_changes(lines: Seq<Seq<char>>, cookie: CookieView)
    ensures
        serializes(lines, Map::empty()) <==> lines.len() == 0,
        serializes(
            lines,
            Map::<Seq<char>, Change>::empty().insert(cookie.name, Change::Stored(cookie)),
        ) <==> lines == seq![cookie.line()],
{
    let none = Map::<Seq<char>, Change>::empty();
    let one = none.insert(cookie.name, Change::Stored(cookie));
    if serializes(lines, none) {
        let names = choose|names: Seq<Seq<char>>|
            {
                &&& #[trigger] is_listing(names, none.dom())
                &&& lines.len() == names.len()
                &&& forall|i: int|
                    0 <= i < names.len() ==> lines[i] == change_line(names[i], none[names[i]])
            };
        if names.len() > 0 {
            assert(none.dom().contains(names[0]));
        }
    }
    if lines.len() == 0 {
        assert(is_listing(Seq::<Seq<char>>::empty(), none.dom()));
    }
    if serializes(lines, one) {
        let names = choose|names: Seq<Seq<char>>|
            {
                &&& #[trigger] is_listing(names, one.dom())
                &&& lines.len() == names.len()
                &&& forall|i: int|
                    0 <= i < names.len() ==> lines[i] == change_line(names[i], one[names[i]])
            };
        assert(is_listing(seq![cookie.name], one.dom())) by {
            assert(seq![cookie.name][0] == cookie.name);
        }
        law_listing_is_unique(names, seq![cookie.name], one.dom());
        assert(lines =~= seq![cookie.line()]);
    }
    if lines == seq![cookie.line()] {
        let names = seq![cookie.name];
        assert(is_listing(names, one.dom())) by {
            assert(names[0] == cookie.name);
        }
        assert(lines.len() == names.len());
        assert(serializes(lines, one));
    }
}

/// Whether a character is no control character, the tab counting as none.
pub open spec fn is_plain(c: char) -> bool {
    (32 <= c as u32 && c as u32 != 127) || c as u32 == 9
}

/// Whether a text holds no control character.
pub open spec fn all_plain(text: Seq<char>) -> bool {
    forall|i: int| 0 <= i < text.len() ==> is_plain(#[trigger] text[i])
}

/// Whether a text that may be absent holds no control character.
pub open spec fn plain_if_set(text: Option<Seq<char>>) -> bool {
    text matches Some(t) ==> all_plain(t)
}

/// Whether neither the name nor the value nor an attribute of the cookie
/// holds a control character.
pub open spec fn plain_cookie(cookie: CookieView) -> bool {
    &&& all_plain(cookie.name)
    &&& all_plain(cookie.value)
    &&& plain_if_set(cookie.domain)
    &&& plain_if_set(cookie.expires)
    &&& plain_if_set(cookie.path)
}

/// Whether no name that was changed and no cookie that was stored holds a
/// control character.
pub open spec fn plain_changes(changes: Map<Seq<char>, Change>) -> bool {
    forall|name: Seq<char>| #[trigger]
        changes.dom().contains(name) ==> all_plain(name) && (changes[name] matches Change::Stored(
            cookie,
        ) ==> plain_cookie(cookie))
}

/// The bytes of a character that is no control character can be sent.
proof fn lemma_plain_character_can_be_sent(c: char)
    requires
        is_plain(c),
    ensures
        all_sendable(encode_scalar(c as u32)),
{
    let v = c as u32;
    char_is_scalar(c);
    assert(v <= 0x7F ==> (v & 0x7F) as u8 == v) by (bit_vector);
    assert((0xC0u8 | (((v >> 6) & 0x1F) as u8)) >= 0x80) by (bit_vector);
    assert((0xE0u8 | (((v >> 12) & 0x0F) as u8)) >= 0x80) by (bit_vector);
    assert((0xF0u8 | (((v >> 18) & 0x7) as u8)) >= 0x80) by (bit_vector);
    assert((0x80u8 | ((v & 0x3F) as u8)) >= 0x80) by (bit_vector);
    assert((0x80u8 | (((v >> 6) & 0x3F) as u8)) >= 0x80) by (bit_vector);
    assert((0x80u8 | (((v >> 12) & 0x3F) as u8)) >= 0x80) by (bit_vector);
}

/// The bytes of a text without control characters can be sent.
proof fn lemma_plain_text_can_be_sent(text: Seq<char>)
    requires
        all_plain(text),
    ensures
        all_sendable(encode_utf8(text)),
    decreases text.len(),
{
    if text.len() > 0 {
        let head = encode_scalar(text[0] as u32);
        let tail = encode_utf8(text.drop_first());
        lemma_plain_character_can_be_sent(text[0]);
        assert forall|i: int| 0 <= i < text.drop_first().len() implies is_plain(
            #[trigger] text.drop_first()[i],
        ) by {
            assert(text.drop_first()[i] == text[i + 1]);
        }
        lemma_plain_text_can_be_sent(text.drop_first());
        assert forall|i: int| 0 <= i < (head + tail).len() implies is_sendable(
            #[trigger] (head + tail)[i],
        ) by {
            if i < head.len() {
                assert((head + tail)[i] == head[i]);
            } else {
                assert((head + tail)[i] == tail[i - head.len()]);
            }
        }
    }
}

/// Two texts without control characters make one when joined.
proof fn lemma_plain_joined(first: Seq<char>, second: Seq<char>)
    requires
        all_plain(first),
        all_plain(second),
    ensures
        all_plain(first + second),
{
    assert forall|i: int| 0 <= i < (first + second).len() implies is_plain(
        #[trigger] (first + second)[i],
    ) by {
        if i < first.len() {
            assert((first + second)[i] == first[i]);
        } else {
            assert((first + second)[i] == second[i - first.len()]);
        }
    }
}

/// A decimal numeral holds no control character.
proof fn lemma_plain_decimal(n: nat)
    ensures
        all_plain(decimal(n)),
    decreases n,
{
    if n >= 10 {
        lemma_plain_decimal(n / 10);
        lemma_plain_joined(decimal(n / 10), seq![digit(n % 10)]);
        assert(decimal(n) =~= decimal(n / 10) + seq![digit(n % 10)]);
    }
}

/// The words of a header value hold no control character.
proof fn lemma_plain_words()
    ensures
        all_plain("="@),
        all_plain("; Domain="@),
        all_plain("; Expires="@),
        all_plain("; HttpOnly"@),
        all_plain("; Max-Age="@),
        all_plain("; Partitioned"@),
        all_plain("; Path="@),
        all_plain("; SameSite="@),
        all_plain("; Secure"@),
        all_plain("Strict"@),
        all_plain("Lax"@),
        all_plain("None"@),
        all_plain(removal_suffix()),
{
    reveal_strlit("=");
    reveal_strlit("; Domain=");
    reveal_strlit("; Expires=");
    reveal_strlit("; HttpOnly");
    reveal_strlit("; Max-Age=");
    reveal_strlit("; Partitioned");
    reveal_strlit("; Path=");
    reveal_strlit("; SameSite=");
    reveal_strlit("; Secure");
    reveal_strlit("Strict");
    reveal_strlit("Lax");
    reveal_strlit("None");
    reveal_strlit("=removed; Max-Age=0");
}

/// A label with a text behind it, or a flag, holds no control character
/// where the text holds none.
proof fn lemma_plain_part(label: Seq<char>, text: Option<Seq<char>>, on: bool)
    requires
        all_plain(label),
        plain_if_set(text),
    ensures
        all_plain(optional(label, text)),
        all_plain(flag(label, on)),
{
    if let Some(t) = text {
        lemma_plain_joined(label, t);
    }
}

/// The header value of a cookie without control characters can be sent.
pub proof fn law_plain_cookie_can_be_sent(cookie: CookieView)
    requires
        plain_cookie(cookie),
    ensures
        all_plain(cookie.line()),
        all_sendable(encode_utf8(cookie.line())),
{
    lemma_plain_words();
    if let Some(seconds) = cookie.max_age {
        lemma_plain_decimal(seconds as nat);
    }
    let a = cookie.name + "="@;
    lemma_plain_joined(cookie.name, "="@);
    let b = a + cookie.value;
    lemma_plain_joined(a, cookie.value);
    let c = b + optional("; Domain="@, cookie.domain);
    lemma_plain_part("; Domain="@, cookie.domain, false);
    lemma_plain_joined(b, optional("; Domain="@, cookie.domain));
    let d = c + optional("; Expires="@, cookie.expires);
    lemma_plain_part("; Expires="@, cookie.expires, false);
    lemma_plain_joined(c, optional("; Expires="@, cookie.expires));
    let e = d + flag("; HttpOnly"@, cookie.http_only);
    lemma_plain_part("; HttpOnly"@, None, cookie.http_only);
    lemma_plain_joined(d, flag("; HttpOnly"@, cookie.http_only));
    let f = e + optional("; Max-Age="@, numeral_of(cookie.max_age));
    lemma_plain_part("; Max-Age="@, numeral_of(cookie.max_age), false);
    lemma_plain_joined(e, optional("; Max-Age="@, numeral_of(cookie.max_age)));
    let g = f + flag("; Partitioned"@, cookie.partitioned);
    lemma_plain_part("; Partitioned"@, None, cookie.partitioned);
    lemma_plain_joined(f, flag("; Partitioned"@, cookie.partitioned));
    let h = g + optional("; Path="@, cookie.path);
    lemma_plain_part("; Path="@, cookie.path, false);
    lemma_plain_joined(g, optional("; Path="@, cookie.path));
    let i = h + optional("; SameSite="@, word_of(cookie.same_site));
    lemma_plain_part("; SameSite="@, word_of(cookie.same_site), false);
    lemma_plain_joined(h, optional("; SameSite="@, word_of(cookie.same_site)));
    lemma_plain_part("; Secure"@, None, cookie.secure);
    lemma_plain_joined(i, flag("; Secure"@, cookie.secure));
    lemma_plain_text_can_be_sent(cookie.line());
}

/// The header value that removes a name without control characters can be
/// sent.
pub proof fn law_plain_removal_can_be_sent(name: Seq<char>)
    requires
        all_plain(name),
    ensures
        all_sendable(encode_utf8(name + removal_suffix())),
{
    lemma_plain_words();
    lemma_plain_joined(name, removal_suffix());
    lemma_plain_text_can_be_sent(name + removal_suffix());
}

/// Where no changed name and no stored cookie holds a control character,
/// every header value of the serialization can be sent, and adding them to
/// a response fails for no other reason than that the headers cannot grow.
pub proof fn law_plain_changes_can_be_sent(
    lines: Seq<String>,
    changes: Map<Seq<char>, Change>,
    before: Map<Seq<char>, Seq<Seq<u8>>>,
    after: Map<Seq<char>, Seq<Seq<u8>>>,
    done: Result<(), EmitError>,
)
    requires
        serializes(lines_of(lines), changes),
        plain_changes(changes),
    ensures
        forall|i: int| 0 <= i < lines.len() ==> all_sendable(#[trigger] bytes_of(lines)[i]),
        emits(before, after, bytes_of(lines), done) ==> !(done matches Err(
            EmitError::InvalidValue(_),
        )),
{
    let names = choose|names: Seq<Seq<char>>|
        {
            &&& #[trigger] is_listing(names, changes.dom())
            &&& lines_of(lines).len() == names.len()
            &&& forall|i: int|
                0 <= i < names.len() ==> lines_of(lines)[i] == change_line(
                    names[i],
                    changes[names[i]],
                )
        };
    assert forall|i: int| 0 <= i < lines.len() implies all_sendable(
        #[trigger] bytes_of(lines)[i],
    ) by {
        let name = names[i];
        assert(changes.dom().contains(name));
        assert(lines_of(lines)[i] == change_line(name, changes[name]));
        match changes[name] {
            Change::Stored(cookie) => {
                law_plain_cookie_can_be_sent(cookie);
            },
            Change::Removed => {
                law_plain_removal_can_be_sent(name);
            },
        }
    }
}

/// A handler that asks for the manager gets the outcome that was published
/// for its request, and the rejection of 500 that names the missing layer
/// where none was.
pub proof fn law_retrieval(outcome: ParseOutcome)
    ensures
        retrieval(seq![outcome]) == outcome,
        retrieval(Seq::empty()) == Err::<CookieManager, Rejection>(Rejection::NotInstalled),
        Rejection::NotInstalled.status_code() == 500,
{
}

} // verus!

//! Message ids and texts for the rows the mod adds to the game's menus: a
//! downward-counting id allocator, and the registry that the message lookup
//! serves registered texts from.

use vstd::prelude::*;
use crate::esd::MSGBND_EVENT_TEXT_FOR_TALK;

verus! {

broadcast use vstd::string::group_string_axioms;

/// First (highest) message id handed out; ids count down so blocks stay
/// within the reserved region.
pub const MSG_ID_BASE: i32 = 69_990_100;

/// Size, in UTF-16 units, that a freshly registered text buffer is padded to.
pub const MESSAGE_CAPACITY: usize = 128;

/// Hands out message ids, counting down from [`MSG_ID_BASE`].
pub struct MessageIdAllocator {
    pub next: i32,
}

/// The ids one allocation hands out: `(after, before]`, where `before` and
/// `after` are the allocator's next id before and after it.
pub open spec fn handed_out(before: i32, after: i32, id: int) -> bool {
    after < id <= before
}

impl MessageIdAllocator {
    /// An allocator whose first id is [`MSG_ID_BASE`].
    pub fn new() -> (r: Self)
        ensures
            r.next == MSG_ID_BASE,
    {
        MessageIdAllocator { next: MSG_ID_BASE }
    }

    /// Allocates the next free message id (the counter decreases by one,
    /// wrapping as an atomic `fetch_sub` does).
    pub fn alloc_message_id(&mut self) -> (r: i32)
        ensures
            r == old(self).next,
            final(self).next == old(self).next.wrapping_sub(1),
            old(self).next > i32::MIN ==> final(self).next == old(self).next - 1,
    {
        let r = self.next;
        self.next = self.next.wrapping_sub(1);
        r
    }

    /// Allocates `count` contiguous message ids and returns the lowest one;
    /// the caller uses `base..base + count`.
    pub fn alloc_message_block(&mut self, count: usize) -> (r: i32)
        requires
            count <= i32::MAX,
            old(self).next - count >= i32::MIN,
            old(self).next - count < i32::MAX,
        ensures
            r == old(self).next - count + 1,
            final(self).next == old(self).next - count,
    {
        let c = count as i32;
        let prev = self.next;
        self.next = prev - c;
        prev - c + 1
    }
}

/// The allocator's counter after `n` single allocations from `next`, each
/// stepping it down by one and wrapping at `i32::MIN`.
pub open spec fn counter_after(next: i32, n: int) -> i32
    decreases n,
{
    if n <= 0 {
        next
    } else {
        counter_after(next, n - 1).wrapping_sub(1)
    }
}

/// Without wrap-around the counter just steps down.
pub proof fn lemma_counter_after(next: i32, n: int)
    requires
        0 <= n,
        next - n >= i32::MIN,
    ensures
        counter_after(next, n) == next - n,
    decreases n,
{
    if n > 0 {
        lemma_counter_after(next, n - 1);
    }
}

/// The counter after `n` steps, as a number: `next - n`, plus `2^32` once it
/// has wrapped past `i32::MIN`.
pub proof fn lemma_counter_after_wrap(next: i32, n: int)
    requires
        0 <= n <= 0x1_0000_0000,
    ensures
        counter_after(next, n) as int == if next - n >= i32::MIN { next - n } else { next - n + 0x1_0000_0000 },
    decreases n,
{
    if n > 0 {
        lemma_counter_after_wrap(next, n - 1);
    }
}

/// Single allocations hand out pairwise different ids, wrap-around at
/// `i32::MIN` included, as long as fewer than `2^32` of them are made: the
/// `j`th and `k`th ids from a counter at `next` differ.
pub proof fn law_successive_ids_distinct(next: i32, j: int, k: int)
    requires
        0 <= j < k < 0x1_0000_0000,
    ensures
        counter_after(next, j) != counter_after(next, k),
{
    lemma_counter_after_wrap(next, j);
    lemma_counter_after_wrap(next, k);
}

/// Ids handed out by two allocations, one after the other, never coincide:
/// the counter only goes down, and each allocation takes the ids between its
/// old and new counter.
pub proof fn law_allocations_disjoint(a0: i32, a1: i32, b0: i32, b1: i32, id: int)
    requires
        a1 <= a0,
        b0 <= a1,
        b1 <= b0,
        handed_out(a0, a1, id),
    ensures
        !handed_out(b0, b1, id),
{
}

/// The UTF-16 code units of one character.
pub open spec fn utf16_char(c: char) -> Seq<u16> {
    let v = c as u32;
    if v < 0x10000 {
        seq![v as u16]
    } else {
        let w = v - 0x10000;
        seq![(0xD800 + w / 0x400) as u16, (0xDC00 + w % 0x400) as u16]
    }
}

/// `str::encode_utf16`: the UTF-16 code units of a text.
pub open spec fn utf16(s: Seq<char>) -> Seq<u16>
    decreases s.len(),
{
    if s.len() == 0 {
        Seq::empty()
    } else {
        utf16(s.drop_last()) + utf16_char(s.last())
    }
}

/// The text followed by a terminating NUL.
pub open spec fn c_units(s: Seq<char>) -> Seq<u16> {
    utf16(s).push(0u16)
}

/// A freshly registered text buffer: the NUL-terminated text, padded with
/// NULs to [`MESSAGE_CAPACITY`] units.
pub open spec fn message_buffer(s: Seq<char>) -> Seq<u16> {
    let c = c_units(s);
    if c.len() < MESSAGE_CAPACITY {
        c + Seq::new((MESSAGE_CAPACITY - c.len()) as nat, |i: int| 0u16)
    } else {
        c
    }
}

/// A buffer after an update: the new NUL-terminated text written over the
/// start of the old buffer when it fits, a new buffer otherwise.
pub open spec fn updated_buffer(old_buf: Seq<u16>, s: Seq<char>) -> Seq<u16> {
    let c = c_units(s);
    if c.len() <= old_buf.len() {
        c + old_buf.skip(c.len() as int)
    } else {
        c
    }
}

/// The wide C string a buffer holds: its units up to the first NUL.
pub open spec fn c_str(b: Seq<u16>) -> Seq<u16>
    decreases b.len(),
{
    if b.len() == 0 {
        b
    } else if b[0] == 0 {
        Seq::empty()
    } else {
        seq![b[0]] + c_str(b.drop_first())
    }
}

/// A text without NUL characters.
pub open spec fn no_nul(s: Seq<char>) -> bool {
    forall|i: int| 0 <= i < s.len() ==> s[i] != '\0'
}

/// The code units of a text without NUL characters are all non-zero.
pub proof fn lemma_utf16_no_zero(s: Seq<char>)
    requires
        no_nul(s),
    ensures
        forall|i: int| 0 <= i < utf16(s).len() ==> utf16(s)[i] != 0,
    decreases s.len(),
{
    if s.len() > 0 {
        let p = s.drop_last();
        assert forall|i: int| 0 <= i < p.len() implies p[i] != '\0' by {
            assert(p[i] == s[i]);
        }
        lemma_utf16_no_zero(p);
        let c = s.last();
        assert(c != '\0');
        vstd::utf8::char_is_scalar(c);
        let u = utf16(s);
        assert forall|i: int| 0 <= i < u.len() implies u[i] != 0 by {
            if i < utf16(p).len() {
                assert(u[i] == utf16(p)[i]);
            } else {
                let v = c as u32;
                if v == 0 {
                    vstd::utf8::char_u32_cast(c, v);
                    vstd::utf8::char_u32_cast('\0', ('\0' as u32));
                    assert('\0' as u32 == 0);
                }
                assert(v != 0);
                if v < 0x10000 {
                    assert(u[i] == v as u16);
                } else {
                    let w = v - 0x10000;
                    assert(0 <= w / 0x400 < 0x400) by (nonlinear_arith)
                        requires 0 <= w <= 0xFFFFF;
                    assert(0 <= w % 0x400 < 0x400) by (nonlinear_arith)
                        requires 0 <= w;
                }
            }
        }
    }
}

/// The C string of units without NUL followed by a NUL and anything else is
/// those units.
pub proof fn lemma_c_str_prefix(u: Seq<u16>, rest: Seq<u16>)
    requires
        forall|i: int| 0 <= i < u.len() ==> u[i] != 0,
    ensures
        c_str(u.push(0u16) + rest) == u,
    decreases u.len(),
{
    let b = u.push(0u16) + rest;
    if u.len() == 0 {
        assert(b[0] == 0);
        assert(c_str(b) =~= u);
    } else {
        let u2 = u.drop_first();
        assert forall|i: int| 0 <= i < u2.len() implies u2[i] != 0 by {
            assert(u2[i] == u[i + 1]);
        }
        lemma_c_str_prefix(u2, rest);
        assert(b.drop_first() =~= u2.push(0u16) + rest);
        assert(b[0] == u[0]);
        assert(c_str(b) =~= seq![u[0]] + u2);
        assert(seq![u[0]] + u2 =~= u);
    }
}

/// The UTF-16 units of a text.
pub fn encode_utf16(s: &str) -> (r: Vec<u16>)
    ensures
        r@ == utf16(s@),
{
    let mut out: Vec<u16> = Vec::new();
    for c in it: s.chars()
        invariant
            out@ == utf16(it.seq().take(it.index() as int)),
    {
        let ghost pre = it.seq().take(it.index() as int);
        proof {
            vstd::utf8::char_is_scalar(c);
        }
        let v = c as u32;
        if v < 0x10000 {
            out.push(v as u16);
        } else {
            let w = v - 0x10000;
            assert(w / 0x400 < 0x400) by (nonlinear_arith)
                requires w <= 0xFFFFF;
            assert(w % 0x400 < 0x400) by (nonlinear_arith)
                requires w >= 0;
            out.push((0xD800 + w / 0x400) as u16);
            out.push((0xDC00 + w % 0x400) as u16);
        }
        proof {
            let nxt = it.seq().take(it.index() + 1);
            assert(nxt.drop_last() =~= pre);
            assert(nxt.last() == c);
            assert(out@ =~= utf16(pre) + utf16_char(c));
        }
    }
    assert(s@.take(s@.len() as int) =~= s@);
    out
}

/// A text to register, encoded: NUL-terminated and padded to
/// [`MESSAGE_CAPACITY`] units.
pub fn encode_message_text(text: &str) -> (r: Vec<u16>)
    ensures
        r@ == message_buffer(text@),
{
    let mut chars = encode_utf16(text);
    chars.push(0);
    if chars.len() < MESSAGE_CAPACITY {
        let ghost c = chars@;
        while chars.len() < MESSAGE_CAPACITY
            invariant
                c.len() <= chars.len() <= MESSAGE_CAPACITY,
                chars@ == c + Seq::new((chars.len() - c.len()) as nat, |i: int| 0u16),
            decreases MESSAGE_CAPACITY - chars.len(),
        {
            chars.push(0);
            assert(chars@ =~= c + Seq::new((chars.len() - c.len()) as nat, |i: int| 0u16));
        }
    }
    chars
}

/// One registered text: the message bound and id it answers, and its
/// NUL-terminated UTF-16 buffer.
pub struct RegisteredMessage {
    pub bnd: u32,
    pub id: i32,
    pub text: Vec<u16>,
}

/// The texts the message lookup serves in place of the game's own.
pub struct MessageRegistry {
    pub entries: Vec<RegisteredMessage>,
}

/// The position of the first entry for `(bnd, id)`, if any.
pub open spec fn first_entry(es: Seq<RegisteredMessage>, bnd: u32, id: i32) -> Option<int> {
    if exists|i: int| 0 <= i < es.len() && es[i].bnd == bnd && es[i].id == id {
        Some(
            choose|i: int|
                0 <= i < es.len() && es[i].bnd == bnd && es[i].id == id && forall|k: int|
                    0 <= k < i ==> !(es[k].bnd == bnd && es[k].id == id),
        )
    } else {
        None
    }
}

pub proof fn lemma_first_entry(es: Seq<RegisteredMessage>, bnd: u32, id: i32, i: int)
    requires
        0 <= i < es.len(),
        es[i].bnd == bnd && es[i].id == id,
        forall|k: int| 0 <= k < i ==> !(es[k].bnd == bnd && es[k].id == id),
    ensures
        first_entry(es, bnd, id) == Some(i),
{
    let j = choose|j: int|
        0 <= j < es.len() && es[j].bnd == bnd && es[j].id == id && forall|k: int|
            0 <= k < j ==> !(es[k].bnd == bnd && es[k].id == id);
    assert(exists|j: int| 0 <= j < es.len() && es[j].bnd == bnd && es[j].id == id);
    if j < i {
        assert(!(es[j].bnd == bnd && es[j].id == id));
    }
    if i < j {
        assert(!(es[i].bnd == bnd && es[i].id == id));
    }
}

impl MessageRegistry {
    /// A registry without texts.
    pub fn new() -> (r: Self)
        ensures
            r.entries@.len() == 0,
    {
        MessageRegistry { entries: Vec::new() }
    }

    /// The buffer the lookup serves for `(bnd, id)`: that of the first entry
    /// registered for it.
    pub fn lookup(&self, bnd: u32, id: i32) -> (r: Option<&Vec<u16>>)
        ensures
            match first_entry(self.entries@, bnd, id) {
                Some(i) => r == Some(&self.entries@[i].text),
                None => r is None,
            },
    {
        let n = self.entries.len();
        for i in 0..n
            invariant
                n == self.entries@.len(),
                forall|k: int| 0 <= k < i ==> !(self.entries@[k].bnd == bnd && self.entries@[k].id == id),
        {
            if self.entries[i].bnd == bnd && self.entries[i].id == id {
                proof {
                    lemma_first_entry(self.entries@, bnd, id, i as int);
                }
                return Some(&self.entries[i].text);
            }
        }
        None
    }

    /// Registers the text served for `id` in message bound `bnd`, encoded as
    /// a NUL-terminated UTF-16 buffer of at least [`MESSAGE_CAPACITY`] units.
    pub fn register_message_in_bnd(&mut self, bnd: u32, id: i32, text: &str)
        ensures
            final(self).entries@.len() == old(self).entries@.len() + 1,
            forall|k: int| 0 <= k < old(self).entries@.len() ==> final(self).entries@[k] == old(self).entries@[k],
            final(self).entries@.last().bnd == bnd,
            final(self).entries@.last().id == id,
            final(self).entries@.last().text@ == message_buffer(text@),
    {
        let buf = encode_message_text(text);
        self.entries.push(RegisteredMessage { bnd, id, text: buf });
    }

    /// Registers the text served for `id` in the talk-menu message bound.
    pub fn register_message(&mut self, id: i32, text: &str)
        ensures
            final(self).entries@.len() == old(self).entries@.len() + 1,
            forall|k: int| 0 <= k < old(self).entries@.len() ==> final(self).entries@[k] == old(self).entries@[k],
            final(self).entries@.last().bnd == MSGBND_EVENT_TEXT_FOR_TALK,
            final(self).entries@.last().id == id,
            final(self).entries@.last().text@ == message_buffer(text@),
    {
        self.register_message_in_bnd(MSGBND_EVENT_TEXT_FOR_TALK, id, text);
    }

    /// Replaces the text of the first entry for `(bnd, id)`: written over the
    /// old buffer when it fits, in a new buffer otherwise. Without such an
    /// entry nothing changes.
    pub fn update_message_in_bnd(&mut self, bnd: u32, id: i32, text: &str)
        ensures
            final(self).entries@.len() == old(self).entries@.len(),
            match first_entry(old(self).entries@, bnd, id) {
                Some(i) => {
                    &&& forall|k: int|
                        0 <= k < old(self).entries@.len() && k != i ==> final(self).entries@[k]
                            == old(self).entries@[k]
                    &&& final(self).entries@[i].bnd == bnd
                    &&& final(self).entries@[i].id == id
                    &&& final(self).entries@[i].text@ == updated_buffer(
                        old(self).entries@[i].text@,
                        text@,
                    )
                },
                None => final(self).entries@ == old(self).entries@,
            },
    {
        let mut chars = encode_utf16(text);
        chars.push(0);
        let n = self.entries.len();
        for i in 0..n
            invariant
                n == self.entries@.len(),
                self.entries@ == old(self).entries@,
                chars@ == c_units(text@),
                forall|k: int| 0 <= k < i ==> !(self.entries@[k].bnd == bnd && self.entries@[k].id == id),
        {
            if self.entries[i].bnd == bnd && self.entries[i].id == id {
                proof {
                    lemma_first_entry(self.entries@, bnd, id, i as int);
                }
                let ghost old_buf = self.entries@[i as int].text@;
                if chars.len() <= self.entries[i].text.len() {
                    let mut k: usize = 0;
                    while k < chars.len()
                        invariant
                            0 <= i < n,
                            n == self.entries@.len(),
                            k <= chars.len() <= old_buf.len(),
                            self.entries@[i as int].text@.len() == old_buf.len(),
                            self.entries@[i as int].text@ == chars@.take(k as int) + old_buf.skip(k as int),
                            self.entries@[i as int].bnd == bnd,
                            self.entries@[i as int].id == id,
                            forall|j: int| 0 <= j < n && j != i ==> self.entries@[j] == old(self).entries@[j],
                        decreases chars.len() - k,
                    {
                        self.entries[i].text.set(k, chars[k]);
                        k = k + 1;
                        assert(self.entries@[i as int].text@ =~= chars@.take(k as int) + old_buf.skip(k as int));
                    }
                    assert(chars@.take(chars.len() as int) =~= chars@);
                } else {
                    self.entries[i].text = chars;
                }
                return ;
            }
        }
        assert(first_entry(old(self).entries@, bnd, id) is None);
    }

    /// Replaces a text in the talk-menu message bound.
    pub fn update_message(&mut self, id: i32, text: &str)
        ensures
            final(self).entries@.len() == old(self).entries@.len(),
            match first_entry(old(self).entries@, MSGBND_EVENT_TEXT_FOR_TALK, id) {
                Some(i) => {
                    &&& forall|k: int|
                        0 <= k < old(self).entries@.len() && k != i ==> final(self).entries@[k]
                            == old(self).entries@[k]
                    &&& final(self).entries@[i].text@ == updated_buffer(
                        old(self).entries@[i].text@,
                        text@,
                    )
                },
                None => final(self).entries@ == old(self).entries@,
            },
    {
        self.update_message_in_bnd(MSGBND_EVENT_TEXT_FOR_TALK, id, text);
    }
}

/// A registered text reads back as that text, up to its terminating NUL.
pub proof fn law_registered_text(s: Seq<char>)
    requires
        no_nul(s),
    ensures
        c_str(message_buffer(s)) == utf16(s),
{
    lemma_utf16_no_zero(s);
    let c = c_units(s);
    if c.len() < MESSAGE_CAPACITY {
        lemma_c_str_prefix(utf16(s), Seq::new((MESSAGE_CAPACITY - c.len()) as nat, |i: int| 0u16));
    } else {
        lemma_c_str_prefix(utf16(s), Seq::empty());
        assert(c + Seq::<u16>::empty() =~= c);
    }
}

/// An updated text reads back as the new text, whatever the buffer held.
pub proof fn law_updated_text(old_buf: Seq<u16>, s: Seq<char>)
    requires
        no_nul(s),
    ensures
        c_str(updated_buffer(old_buf, s)) == utf16(s),
{
    lemma_utf16_no_zero(s);
    let c = c_units(s);
    if c.len() <= old_buf.len() {
        lemma_c_str_prefix(utf16(s), old_buf.skip(c.len() as int));
    } else {
        lemma_c_str_prefix(utf16(s), Seq::empty());
        assert(c + Seq::<u16>::empty() =~= c);
    }
}

proof fn lemma_first_entry_min(es: Seq<RegisteredMessage>, bnd: u32, id: i32, i: int) -> (f: int)
    requires
        0 <= i < es.len(),
        es[i].bnd == bnd && es[i].id == id,
    ensures
        0 <= f <= i,
        es[f].bnd == bnd && es[f].id == id,
        forall|k: int| 0 <= k < f ==> !(es[k].bnd == bnd && es[k].id == id),
    decreases i,
{
    if exists|k: int| 0 <= k < i && es[k].bnd == bnd && es[k].id == id {
        let k = choose|k: int| 0 <= k < i && es[k].bnd == bnd && es[k].id == id;
        lemma_first_entry_min(es, bnd, id, k)
    } else {
        i
    }
}

/// What a lookup reads back after a registration: a text registered for a
/// `(bnd, id)` that had none is what the lookup serves for it from then on,
/// and a registration never changes what is served for a `(bnd, id)` that
/// already had a text (the first registration wins).
pub proof fn law_lookup_after_register(es: Seq<RegisteredMessage>, e: RegisteredMessage, bnd: u32, id: i32)
    ensures
        first_entry(es, e.bnd, e.id) is None ==> first_entry(es.push(e), e.bnd, e.id) == Some(es.len() as int),
        first_entry(es, bnd, id) is Some ==> first_entry(es.push(e), bnd, id) == first_entry(es, bnd, id),
{
    let es2 = es.push(e);
    if first_entry(es, e.bnd, e.id) is None {
        assert forall|k: int| 0 <= k < es.len() implies !(es2[k].bnd == e.bnd && es2[k].id == e.id) by {
            assert(es2[k] == es[k]);
        }
        lemma_first_entry(es2, e.bnd, e.id, es.len() as int);
    }
    if first_entry(es, bnd, id) is Some {
        let i0 = choose|i: int| 0 <= i < es.len() && es[i].bnd == bnd && es[i].id == id;
        let f = lemma_first_entry_min(es, bnd, id, i0);
        lemma_first_entry(es, bnd, id, f);
        assert forall|k: int| 0 <= k < f implies !(es2[k].bnd == bnd && es2[k].id == id) by {
            assert(es2[k] == es[k]);
        }
        lemma_first_entry(es2, bnd, id, f);
    }
}

} // verus!

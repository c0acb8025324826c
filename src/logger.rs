use vstd::prelude::*;
use vstd::string::StringSliceAdditionalSpecFns;
use vstd::utf8::encode_utf8;

verus! {

/// Length of the string that starts at `a`: bytes up to the first NUL or `b`.
pub open spec fn nul_len(data: Seq<u8>, a: int, b: int) -> nat
    decreases b - a,
{
    if a >= b || data[a] == 0 {
        0
    } else {
        1 + nul_len(data, a + 1, b)
    }
}

/// The NUL-terminated strings stored in `data[a..b]`, in order.
pub open spec fn parse(data: Seq<u8>, a: int, b: int) -> Seq<Seq<u8>>
    decreases b - a,
{
    if a >= b {
        seq![]
    } else {
        let l = nul_len(data, a, b);
        if a + l + 1 >= b {
            seq![data.subrange(a, a + l)]
        } else {
            seq![data.subrange(a, a + l)] + parse(data, a + l + 1, b)
        }
    }
}

/// The strings that storing `bytes` adds: `bytes` itself when it holds no NUL.
pub open spec fn messages_of(bytes: Seq<u8>) -> Seq<Seq<u8>> {
    parse(bytes.push(0), 0, bytes.len() as int + 1)
}

proof fn lemma_nul_len(data: Seq<u8>, a: int, b: int)
    requires
        a < b,
    ensures
        0 <= nul_len(data, a, b) <= b - a,
        a + nul_len(data, a, b) < b ==> data[a + nul_len(data, a, b)] == 0,
        forall|i: int| a <= i < a + nul_len(data, a, b) ==> data[i] != 0,
    decreases b - a,
{
    if data[a] != 0 {
        if a + 1 < b {
            lemma_nul_len(data, a + 1, b);
        } else {
            assert(nul_len(data, a + 1, b) == 0);
        }
    }
}

proof fn lemma_nul_len_stops(data: Seq<u8>, a: int, b1: int, b2: int, p: int)
    requires
        a <= p,
        p < b1,
        p < b2,
        data[p] == 0,
    ensures
        nul_len(data, a, b1) == nul_len(data, a, b2),
        a + nul_len(data, a, b1) <= p,
    decreases p - a,
{
    if data[a] != 0 {
        lemma_nul_len_stops(data, a + 1, b1, b2, p);
    }
}

proof fn lemma_parse_frame(d1: Seq<u8>, d2: Seq<u8>, a: int, b: int)
    requires
        0 <= a <= b <= d1.len(),
        b <= d2.len(),
        d1.subrange(a, b) == d2.subrange(a, b),
    ensures
        parse(d1, a, b) == parse(d2, a, b),
    decreases b - a,
{
    if a < b {
        assert forall|i: int| a <= i < b implies d1[i] == d2[i] by {
            assert(d1.subrange(a, b)[i - a] == d1[i]);
            assert(d2.subrange(a, b)[i - a] == d2[i]);
        }
        lemma_nul_len_frame(d1, d2, a, b);
        let l = nul_len(d1, a, b);
        lemma_nul_len(d1, a, b);
        assert(d1.subrange(a, a + l) =~= d2.subrange(a, a + l));
        if a + l + 1 <= b {
            assert(d1.subrange(a + l + 1, b) =~= d2.subrange(a + l + 1, b));
            lemma_parse_frame(d1, d2, a + l + 1, b);
        }
    }
}

proof fn lemma_nul_len_frame(d1: Seq<u8>, d2: Seq<u8>, a: int, b: int)
    requires
        0 <= a <= b,
        forall|i: int| a <= i < b ==> d1[i] == d2[i],
    ensures
        nul_len(d1, a, b) == nul_len(d2, a, b),
    decreases b - a,
{
    if a < b {
        lemma_nul_len_frame(d1, d2, a + 1, b);
    }
}

proof fn lemma_parse_split(data: Seq<u8>, a: int, m: int, b: int)
    requires
        a <= m <= b,
        m > a ==> data[m - 1] == 0,
    ensures
        parse(data, a, b) == parse(data, a, m) + parse(data, m, b),
    decreases m - a,
{
    if a == m {
        assert(parse(data, a, m) == Seq::<Seq<u8>>::empty());
        assert(parse(data, a, b) =~= parse(data, a, m) + parse(data, m, b));
    } else {
        lemma_nul_len_stops(data, a, m, b, m - 1);
        let l = nul_len(data, a, b);
        lemma_parse_split(data, a + l + 1, m, b);
        assert(parse(data, a, b) =~= parse(data, a, m) + parse(data, m, b));
    }
}

proof fn lemma_parse_one(data: Seq<u8>, a: int, b: int)
    requires
        a < b,
        data[b - 1] == 0,
        forall|i: int| a <= i < b - 1 ==> data[i] != 0,
    ensures
        parse(data, a, b) == seq![data.subrange(a, b - 1)],
{
    lemma_nul_len_stops(data, a, b, b, b - 1);
    lemma_nul_len(data, a, b);
    assert(nul_len(data, a, b) == b - 1 - a);
    assert(parse(data, b, b) == Seq::<Seq<u8>>::empty());
    assert(parse(data, a, b) =~= seq![data.subrange(a, b - 1)]);
}

proof fn lemma_nul_len_shift(data: Seq<u8>, a: int, b: int, p: int)
    requires
        0 <= a <= p <= b <= data.len(),
    ensures
        nul_len(data, p, b) == nul_len(data.subrange(a, b), p - a, b - a),
    decreases b - p,
{
    if p < b {
        assert(data.subrange(a, b)[p - a] == data[p]);
        lemma_nul_len_shift(data, a, b, p + 1);
    }
}

proof fn lemma_parse_shift_from(data: Seq<u8>, a: int, b: int, p: int)
    requires
        0 <= a <= p <= b <= data.len(),
    ensures
        parse(data, p, b) == parse(data.subrange(a, b), p - a, b - a),
    decreases b - p,
{
    if p < b {
        let sub = data.subrange(a, b);
        lemma_nul_len_shift(data, a, b, p);
        lemma_nul_len(data, p, b);
        let l = nul_len(data, p, b);
        assert(data.subrange(p, p + l) =~= sub.subrange(p - a, p - a + l));
        if p + l + 1 < b {
            lemma_parse_shift_from(data, a, b, p + l + 1);
        }
    }
}

proof fn lemma_parse_shift(data: Seq<u8>, a: int, b: int)
    requires
        0 <= a <= b <= data.len(),
    ensures
        parse(data, a, b) == parse(data.subrange(a, b), 0, b - a),
{
    lemma_parse_shift_from(data, a, b, a);
}

proof fn lemma_write_line(yd: Seq<u8>, d: Seq<u8>, bytes: Seq<u8>, w: int)
    requires
        d.len() == yd.len(),
        0 <= w,
        w + bytes.len() + 1 <= d.len(),
        forall|j: int| 0 <= j < bytes.len() ==> d[w + j] == bytes[j],
        d[w + bytes.len()] == 0,
        forall|j: int| 0 <= j < d.len() && !(w <= j < w + bytes.len() + 1) ==> d[j] == yd[j],
        w > 0 ==> yd[w - 1] == 0,
    ensures
        parse(d, 0, w + bytes.len() + 1) == parse(yd, 0, w) + messages_of(bytes),
{
    let n = bytes.len() as int;
    let wn = w + n + 1;
    assert(d.subrange(w, wn) =~= bytes.push(0));
    lemma_parse_shift(d, w, wn);
    assert(d.subrange(0, w) =~= yd.subrange(0, w));
    lemma_parse_frame(d, yd, 0, w);
    lemma_parse_split(d, 0, w, wn);
}

/// A string holding no NUL is stored as one string.
pub proof fn lemma_messages_of_plain(bytes: Seq<u8>)
    requires
        forall|i: int| 0 <= i < bytes.len() ==> bytes[i] != 0,
    ensures
        messages_of(bytes) == seq![bytes],
{
    let d = bytes.push(0);
    assert forall|i: int| 0 <= i < bytes.len() implies d[i] != 0 by {
        assert(d[i] == bytes[i]);
    }
    lemma_parse_one(d, 0, bytes.len() as int + 1);
    assert(d.subrange(0, bytes.len() as int) =~= bytes);
}

/// The text that `String::from_utf8_lossy` makes of a byte string.
pub uninterp spec fn lossy_utf8(b: Seq<u8>) -> Seq<char>;

/// Relies on `String::from_utf8_lossy`: decodes the bytes as UTF-8, with
/// U+FFFD in place of each invalid sequence; the result depends on the bytes
/// alone, and valid UTF-8 comes back as the text it encodes.
#[verifier::external_body]
fn string_from_bytes(b: &[u8]) -> (r: String)
    ensures
        r@ == lossy_utf8(b@),
        forall|t: Seq<char>| #[trigger] encode_utf8(t) == b@ ==> r@ == t,
{
    String::from_utf8_lossy(b).into_owned()
}

/// Bytes taken by stored lines: each line and its NUL.
pub open spec fn stored_bytes(lines: Seq<Seq<u8>>) -> int
    decreases lines.len(),
{
    if lines.len() == 0 {
        0
    } else {
        lines[0].len() + 1 + stored_bytes(lines.skip(1))
    }
}

/// Where reading stops when whole lines are skipped from `read` until it is
/// at or past `min`; `None` when the used space (up to `size`) runs out first.
pub open spec fn skip_lines(data: Seq<u8>, read: int, size: int, min: int) -> Option<int>
    decreases size - read,
{
    if read >= min {
        Some(read)
    } else if read >= size {
        None
    } else {
        let next = read + nul_len(data, read, size) + 1;
        if next > size {
            None
        } else {
            skip_lines(data, next, size, min)
        }
    }
}

proof fn lemma_skip_lines_min(data: Seq<u8>, read: int, size: int, min: int)
    ensures
        skip_lines(data, read, size, min) is Some ==> skip_lines(data, read, size, min)->0 >= min,
    decreases size - read,
{
    if read < min && read < size {
        let next = read + nul_len(data, read, size) + 1;
        if next <= size {
            lemma_skip_lines_min(data, next, size, min);
        }
    }
}

proof fn lemma_stored_concat(x: Seq<Seq<u8>>, y: Seq<Seq<u8>>)
    ensures
        stored_bytes(x + y) == stored_bytes(x) + stored_bytes(y),
    decreases x.len(),
{
    if x.len() == 0 {
        assert(x + y =~= y);
    } else {
        assert((x + y).skip(1) =~= x.skip(1) + y);
        lemma_stored_concat(x.skip(1), y);
    }
}

proof fn lemma_stored_parse(data: Seq<u8>, a: int, b: int)
    requires
        0 <= a <= b <= data.len(),
        b > a ==> data[b - 1] == 0,
    ensures
        stored_bytes(parse(data, a, b)) == b - a,
    decreases b - a,
{
    if a < b {
        lemma_nul_len_stops(data, a, b, b, b - 1);
        let l = nul_len(data, a, b) as int;
        let piece = seq![data.subrange(a, a + l)];
        assert(piece.skip(1) =~= Seq::<Seq<u8>>::empty());
        assert(stored_bytes(Seq::<Seq<u8>>::empty()) == 0);
        assert(stored_bytes(piece) == l + 1);
        if a + l + 1 < b {
            lemma_stored_parse(data, a + l + 1, b);
            lemma_stored_concat(piece, parse(data, a + l + 1, b));
        }
    }
}

/// The stored lines, each with its NUL, fit in the buffer.
pub proof fn lemma_stored_bytes_fit(l: RingLayout, cap: int)
    requires
        l.wf(cap),
    ensures
        stored_bytes(l.contents()) <= cap,
{
    if l.read < l.write {
        lemma_stored_parse(l.data, l.read, l.write);
    } else {
        lemma_stored_parse(l.data, l.read, l.size);
        lemma_stored_parse(l.data, 0, l.write);
        lemma_stored_concat(parse(l.data, l.read, l.size), parse(l.data, 0, l.write));
    }
}

/// Layout of a `StringRingBuffer`: its bytes, where reading starts, where
/// writing goes next, and the end of the used space.
pub struct RingLayout {
    pub data: Seq<u8>,
    pub read: int,
    pub write: int,
    pub size: int,
}

impl RingLayout {
    /// `[read, size)` and `[0, write)` (or `[read, write)` when reading is
    /// behind writing) hold whole NUL-terminated lines, in `cap` bytes.
    pub open spec fn wf(self, cap: int) -> bool {
        &&& self.data.len() == cap
        &&& 0 <= self.write <= self.size <= cap
        &&& 0 <= self.read <= self.size
        &&& self.size > 0 ==> self.data[self.size - 1] == 0
        &&& self.write > 0 ==> self.data[self.write - 1] == 0
        &&& self.read < self.write ==> self.read == 0
    }

    /// The stored lines, oldest first, as bytes.
    pub open spec fn contents(self) -> Seq<Seq<u8>> {
        if self.read < self.write {
            parse(self.data, self.read, self.write)
        } else {
            parse(self.data, self.read, self.size) + parse(self.data, 0, self.write)
        }
    }

    /// Whether a line of `n` bytes does not fit after the write position.
    pub open spec fn wraps(self, cap: int, n: int) -> bool {
        n + 1 > cap - self.write
    }

    /// Writing starts over at the front when a line of `n` bytes does not fit.
    pub open spec fn wrapped(self, cap: int, n: int) -> RingLayout {
        if self.wraps(cap, n) {
            RingLayout { read: 0, write: 0, size: self.write, ..self }
        } else {
            self
        }
    }

    /// Whether reading must move for a line of `n` bytes written next.
    pub open spec fn in_the_way(self, n: int) -> bool {
        self.write <= self.read < self.write + n + 1
    }

    /// Reading moved past where a line of `n` bytes is written next.
    pub open spec fn room_made(self, n: int) -> RingLayout {
        if self.in_the_way(n) {
            match skip_lines(self.data, self.read, self.size, self.write + n + 1) {
                Some(r) => RingLayout { read: r, ..self },
                None => RingLayout { read: 0, size: self.write + n + 1, ..self },
            }
        } else {
            self
        }
    }

    /// A line and its NUL written at the write position.
    pub open spec fn written(self, bytes: Seq<u8>) -> RingLayout {
        let e = self.write + bytes.len() + 1;
        RingLayout {
            data: self.data.take(self.write) + bytes.push(0) + self.data.skip(e),
            read: self.read,
            write: e,
            size: if self.size < e { e } else { self.size },
        }
    }

    /// Number of lines reading skips to make room for a line of `n` bytes.
    pub open spec fn skipped(self, n: int) -> int {
        match skip_lines(self.data, self.read, self.size, self.write + n + 1) {
            Some(r) => parse(self.data, self.read, r).len() as int,
            None => parse(self.data, self.read, self.size).len() as int,
        }
    }

    /// The layout after storing a line.
    pub open spec fn appended(self, cap: int, bytes: Seq<u8>) -> RingLayout {
        let n = bytes.len() as int;
        if n == 0 || n >= cap {
            self
        } else {
            self.wrapped(cap, n).room_made(n).written(bytes)
        }
    }

    /// Number of oldest lines lost when a line of `n` bytes is stored
    /// (`0 < n < cap`).
    pub open spec fn dropped(self, cap: int, n: int) -> int {
        let k1 = if self.wraps(cap, n) && self.read >= self.write {
            parse(self.data, self.read, self.size).len() as int
        } else {
            0
        };
        let x = self.wrapped(cap, n);
        let k2 = if x.in_the_way(n) {
            x.skipped(n)
        } else {
            0
        };
        k1 + k2
    }
}

/// A fixed-size buffer of the latest log lines. Lines are stored one after
/// the other, each followed by a NUL byte; when the end of the buffer is
/// reached, writing starts over from the start and the oldest lines are
/// dropped.
#[derive(Debug)]
pub struct StringRingBuffer<const S: usize> {
    data: Vec<u8>,
    read_position: usize,
    write_position: usize,
    size: usize,
}

impl<const S: usize> View for StringRingBuffer<S> {
    type V = RingLayout;

    closed spec fn view(&self) -> RingLayout {
        RingLayout {
            data: self.data@,
            read: self.read_position as int,
            write: self.write_position as int,
            size: self.size as int,
        }
    }
}

impl<const S: usize> StringRingBuffer<S> {
    /// The buffer's invariant.
    pub open spec fn wf(&self) -> bool {
        self@.wf(S as int)
    }

    /// The stored lines, oldest first, as bytes.
    pub open spec fn contents(&self) -> Seq<Seq<u8>> {
        self@.contents()
    }

    /// Length of the line at `position`, or `None` at the end of the used space.
    fn str_len(&self, position: usize) -> (r: Option<usize>)
        requires
            self.wf(),
            position <= self.size,
        ensures
            position == self.size ==> r is None,
            position < self.size ==> r == Some(nul_len(self.data@, position as int, self.size as int) as usize),
    {
        if position == self.size {
            return None;
        }
        let mut len: usize = 0;
        while position + len < self.size && self.data[position + len] != 0
            invariant
                self.wf(),
                position < self.size,
                position + len <= self.size,
                nul_len(self.data@, position as int, self.size as int) == len + nul_len(
                    self.data@,
                    position + len,
                    self.size as int,
                ),
            decreases self.size - position - len,
        {
            len = len + 1;
        }
        Some(len)
    }

    /// The stored lines, oldest first.
    pub fn iter(&self) -> (r: Vec<String>)
        requires
            self.wf(),
        ensures
            r@.len() == self.contents().len(),
            forall|i: int| 0 <= i < r@.len() ==> r@[i]@ == lossy_utf8(#[trigger] self.contents()[i]),
            forall|i: int, t: Seq<char>|
                0 <= i < r@.len() && #[trigger] encode_utf8(t) == #[trigger] self.contents()[i]
                    ==> r@[i]@ == t,
    {
        let mut out: Vec<String> = Vec::new();
        let ghost got: Seq<Seq<u8>> = seq![];
        let mut position: usize = self.read_position;
        proof {
            if self.read_position < self.write_position {
                assert(seq![] + parse(self.data@, 0, self.write_position as int) =~= self.contents());
            } else {
                assert(Seq::<Seq<u8>>::empty() + parse(self.data@, self.read_position as int, self.size as int) + parse(self.data@, 0, self.write_position as int) =~= self.contents());
            }
        }
        let mut wrapped: bool = self.read_position < self.write_position;
        let mut done = false;
        while !done
            invariant
                self.wf(),
                out@.len() == got.len(),
                forall|i: int| 0 <= i < got.len() ==> out@[i]@ == lossy_utf8(#[trigger] got[i]),
                forall|i: int, t: Seq<char>|
                    0 <= i < got.len() && #[trigger] encode_utf8(t) == #[trigger] got[i] ==> out@[i]@ == t,
                position <= self.size,
                done ==> got == self.contents(),
                !done && !wrapped ==> self.read_position >= self.write_position && got + parse(
                    self.data@,
                    position as int,
                    self.size as int,
                ) + parse(self.data@, 0, self.write_position as int) == self.contents(),
                !done && wrapped ==> position <= self.write_position && got + parse(
                    self.data@,
                    position as int,
                    self.write_position as int,
                ) == self.contents(),
            decreases (if done {
                0int
            } else {
                1int
            }) + (if wrapped {
                0int
            } else {
                self.size + 1int
            }) + self.size - position,
        {
            if position >= self.write_position && wrapped {
                assert(got + parse(self.data@, position as int, self.write_position as int) =~= got);
                done = true;
            } else {
                match self.str_len(position) {
                    Some(len) => {
                        let ghost end: int = if wrapped { self.write_position as int } else { self.size as int };
                        proof {
                            if wrapped {
                                lemma_nul_len_stops(
                                    self.data@,
                                    position as int,
                                    self.size as int,
                                    self.write_position as int,
                                    self.write_position - 1,
                                );
                            } else {
                                lemma_nul_len_stops(
                                    self.data@,
                                    position as int,
                                    self.size as int,
                                    self.size as int,
                                    self.size - 1,
                                );
                            }
                            lemma_nul_len(self.data@, position as int, end);
                        }
                        let mut line: Vec<u8> = Vec::new();
                        let mut j: usize = 0;
                        while j < len
                            invariant
                                self.wf(),
                                position + len < self.size,
                                j <= len,
                                line@ =~= self.data@.subrange(position as int, position + j),
                            decreases len - j,
                        {
                            line.push(self.data[position + j]);
                            j = j + 1;
                        }
                        let text = string_from_bytes(line.as_slice());
                        out.push(text);
                        proof {
                            let piece = self.data@.subrange(position as int, position + len);
                            assert(parse(self.data@, position as int, end) =~= seq![piece] + parse(
                                self.data@,
                                position + len + 1,
                                end,
                            ));
                            got = got.push(piece);
                        }
                        position = position + len + 1;
                    },
                    None => {
                        if wrapped {
                            done = true;
                        } else {
                            position = 0;
                            wrapped = true;
                        }
                    },
                }
            }
        }
        out
    }

    /// Stores a line. An empty line, or one of `S` bytes or more, is not
    /// stored; otherwise the line comes last, after the lines before it less
    /// the `dropped` oldest ones, lost to make room.
    pub fn append(&mut self, message: &str)
        requires
            old(self).wf(),
        ensures
            final(self).wf(),
            final(self)@ == old(self)@.appended(S as int, message.spec_bytes()),
            (message.spec_bytes().len() == 0 || message.spec_bytes().len() >= S) ==> *final(self)
                == *old(self),
            (0 < message.spec_bytes().len() < S) ==> {
                let k = old(self)@.dropped(S as int, message.spec_bytes().len() as int);
                &&& 0 <= k <= old(self).contents().len()
                &&& final(self).contents() == old(self).contents().skip(k) + messages_of(
                    message.spec_bytes(),
                )
            },
            stored_bytes(final(self).contents()) <= S,
    {
        let bytes = message.as_bytes();
        let n = bytes.len();
        if n == 0 || n >= S {
            proof {
                lemma_stored_bytes_fit(self@, S as int);
            }
            return;
        }
        let data_len = n + 1;
        let ghost l0 = self@;
        let ghost c0 = self.contents();
        let ghost k1: int = if l0.wraps(S as int, n as int) && l0.read >= l0.write {
            parse(l0.data, l0.read, l0.size).len() as int
        } else {
            0
        };

        // Start over at the front when the line does not fit at the end
        if data_len > S - self.write_position {
            self.wrap_to_front();
        } else {
            assert(c0.skip(0) =~= c0);
        }
        assert(self@ == l0.wrapped(S as int, n as int));
        let ghost x = self@;
        let ghost cx = self.contents();
        let ghost k2: int = if x.in_the_way(n as int) {
            x.skipped(n as int)
        } else {
            0
        };

        // Move reading past the space about to be written
        if self.write_position <= self.read_position
            && self.read_position < self.write_position + data_len
        {
            self.make_room(n);
        } else {
            assert(cx.skip(0) =~= cx);
        }
        let ghost y = *self;
        proof {
            assert(c0.skip(k1).skip(k2) =~= c0.skip(k1 + k2));
        }
        self.write_line(bytes);
        proof {
            if self.read_position < self.write_position {
                assert(parse(y.data@, 0, y.write_position as int) == cx.skip(k2));
                assert(self.contents() =~= cx.skip(k2) + messages_of(bytes@));
            } else {
                assert(self.contents() =~= cx.skip(k2) + messages_of(bytes@));
            }
            lemma_stored_bytes_fit(self@, S as int);
        }
    }

    /// Starts writing over at the front: the lines before the write position
    /// become the only lines left to read.
    fn wrap_to_front(&mut self)
        requires
            old(self).wf(),
        ensures
            final(self).wf(),
            final(self).data == old(self).data,
            final(self).read_position == 0,
            final(self).write_position == 0,
            final(self).size == old(self).write_position,
            ({
                let k = if old(self).read_position >= old(self).write_position {
                    parse(old(self).data@, old(self).read_position as int, old(self).size as int).len() as int
                } else {
                    0
                };
                0 <= k <= old(self).contents().len() && final(self).contents() == old(self).contents().skip(k)
            }),
    {
        let ghost c0 = self.contents();
        let ghost k: int = 0;
        proof {
            if self.read_position >= self.write_position {
                k = parse(self.data@, self.read_position as int, self.size as int).len() as int;
            }
        }
        self.size = self.write_position;
        self.write_position = 0;
        self.read_position = 0;
        proof {
            assert(parse(self.data@, 0, 0) == Seq::<Seq<u8>>::empty());
            assert(self.contents() =~= c0.skip(k));
        }
    }

    /// Moves reading to `end` or beyond, dropping the oldest lines. When no
    /// line is left in front, reading starts over at 0 and only the lines
    /// before the write position stay.
    fn make_room(&mut self, n: usize)
        requires
            old(self).wf(),
            old(self).write_position + n + 1 <= S,
            old(self)@.in_the_way(n as int),
        ensures
            final(self)@ == old(self)@.room_made(n as int),
            final(self).read_position > 0 ==> final(self).read_position >= old(self).write_position
                + n + 1,
            0 <= old(self)@.skipped(n as int) <= old(self).contents().len(),
            final(self).read_position > 0 ==> final(self).wf() && final(self).contents() == old(
                self,
            ).contents().skip(old(self)@.skipped(n as int)),
            final(self).read_position == 0 ==> parse(
                final(self).data@,
                0,
                final(self).write_position as int,
            ) == old(self).contents().skip(old(self)@.skipped(n as int)),
    {
        let ghost x = *self;
        let ghost cx = self.contents();
        let end = self.write_position + n + 1;
        proof {
            lemma_skip_lines_min(self.data@, x.read_position as int, x.size as int, end as int);
        }
        self.advance_read_position(end);
        proof {
            if self.size == x.size && self.read_position >= end && x.read_position
                <= self.read_position <= self.size && (self.read_position > x.read_position
                ==> self.data@[self.read_position - 1] == 0) {
                lemma_parse_split(
                    self.data@,
                    x.read_position as int,
                    self.read_position as int,
                    self.size as int,
                );
                let k = parse(self.data@, x.read_position as int, self.read_position as int).len() as int;
                assert(self.contents() =~= cx.skip(k));
            } else {
                let k = parse(self.data@, x.read_position as int, x.size as int).len() as int;
                assert(parse(self.data@, 0, self.write_position as int) =~= cx.skip(k));
            }
            assert(self@ =~= x@.room_made(n as int));
        }
    }

    /// Writes a line and its NUL at the write position and moves past it.
    fn write_line(&mut self, bytes: &[u8])
        requires
            old(self).data@.len() == S,
            old(self).write_position + bytes@.len() + 1 <= S,
            old(self).write_position > 0 ==> old(self).data@[old(self).write_position - 1] == 0,
            old(self).read_position <= old(self).size <= S,
            old(self).read_position < old(self).write_position + bytes@.len() + 1 ==> old(self).read_position == 0,
            old(self).size > old(self).write_position + bytes@.len() + 1 ==> old(self).data@[old(self).size - 1] == 0,
        ensures
            final(self).wf(),
            final(self).read_position == old(self).read_position,
            final(self).write_position == old(self).write_position + bytes@.len() + 1,
            parse(final(self).data@, 0, final(self).write_position as int) == parse(
                old(self).data@,
                0,
                old(self).write_position as int,
            ) + messages_of(bytes@),
            final(self).read_position >= final(self).write_position ==> final(self).size == old(self).size
                && parse(final(self).data@, final(self).read_position as int, final(self).size as int)
                == parse(old(self).data@, old(self).read_position as int, old(self).size as int),
            final(self)@ == old(self)@.written(bytes@),
    {
        let ghost y = *self;
        let w = self.write_position;
        let n = bytes.len();
        let mut i: usize = 0;
        while i < n
            invariant
                n == bytes@.len(),
                w + n < S,
                i <= n,
                self.data@.len() == S,
                self.read_position == y.read_position,
                self.write_position == y.write_position,
                self.size == y.size,
                w == y.write_position,
                forall|j: int| 0 <= j < i ==> self.data@[w + j] == bytes@[j],
                forall|j: int| 0 <= j < S && !(w <= j < w + i) ==> self.data@[j] == y.data@[j],
            decreases n - i,
        {
            self.data[w + i] = bytes[i];
            i = i + 1;
        }
        self.data[w + n] = 0;
        self.write_position = w + n + 1;
        if self.size < self.write_position {
            self.size = self.write_position;
        }
        proof {
            let d = self.data@;
            assert(d =~= y.data@.take(w as int) + bytes@.push(0) + y.data@.skip(w + n + 1));
            lemma_write_line(y.data@, d, bytes@, w as int);
            if self.read_position >= self.write_position {
                assert(d.subrange(y.read_position as int, y.size as int) =~= y.data@.subrange(
                    y.read_position as int,
                    y.size as int,
                ));
                lemma_parse_frame(d, y.data@, y.read_position as int, y.size as int);
            }
        }
    }

    /// Drops lines from the front until reading starts at or after
    /// `minimum_position`; if the used space runs out first, reading starts
    /// over at 0 and the used space ends at `minimum_position`.
    fn advance_read_position(&mut self, minimum_position: usize)
        requires
            old(self).wf(),
            old(self).write_position <= old(self).read_position,
            minimum_position <= S,
        ensures
            final(self).data == old(self).data,
            final(self).write_position == old(self).write_position,
            ({
                ||| {
                    &&& final(self).size == old(self).size
                    &&& old(self).read_position <= final(self).read_position <= final(self).size
                    &&& final(self).read_position >= minimum_position
                    &&& final(self).read_position > old(self).read_position ==> final(self).data@[final(self).read_position - 1] == 0
                }
                ||| {
                    &&& final(self).read_position == 0
                    &&& final(self).size == minimum_position
                }
            }),
            ({
                let s = skip_lines(
                    old(self).data@,
                    old(self).read_position as int,
                    old(self).size as int,
                    minimum_position as int,
                );
                &&& s is Some ==> final(self).read_position == s->0 && final(self).size == old(self).size
                &&& s is None ==> final(self).read_position == 0 && final(self).size == minimum_position
            }),
    {
        let ghost start = self.read_position;
        while self.read_position < minimum_position
            invariant
                self.data == old(self).data,
                self.write_position == old(self).write_position,
                self.size == old(self).size,
                self.wf(),
                start == old(self).read_position,
                start <= self.read_position <= self.size,
                self.write_position <= self.read_position,
                minimum_position <= S,
                self.read_position > start ==> self.data@[self.read_position - 1] == 0,
                skip_lines(self.data@, start as int, self.size as int, minimum_position as int)
                    == skip_lines(
                    self.data@,
                    self.read_position as int,
                    self.size as int,
                    minimum_position as int,
                ),
            decreases self.size - self.read_position,
        {
            if let Some(len) = self.str_len(self.read_position) {
                proof {
                    lemma_nul_len_stops(
                        self.data@,
                        self.read_position as int,
                        self.size as int,
                        self.size as int,
                        self.size - 1,
                    );
                    lemma_nul_len(self.data@, self.read_position as int, self.size as int);
                }
                self.read_position = self.read_position + len + 1;
            } else {
                self.read_position = 0;
                self.size = minimum_position;
                return;
            }
        }
    }
}

impl<const S: usize> Default for StringRingBuffer<S> {
    fn default() -> (r: Self)
        ensures
            r.wf(),
            r.contents() == Seq::<Seq<u8>>::empty(),
            r@ == (RingLayout { data: Seq::new(S as nat, |i: int| 0u8), read: 0, write: 0, size: 0 }),
    {
        let mut data: Vec<u8> = Vec::new();
        let mut i: usize = 0;
        while i < S
            invariant
                data@.len() == i,
                i <= S,
                forall|j: int| 0 <= j < i ==> data@[j] == 0u8,
            decreases S - i,
        {
            data.push(0);
            i = i + 1;
        }
        let r = StringRingBuffer { data, read_position: 0, write_position: 0, size: 0 };
        assert(r.contents() =~= Seq::<Seq<u8>>::empty());
        assert(r@.data =~= Seq::new(S as nat, |i: int| 0u8));
        r
    }
}

} // verus!

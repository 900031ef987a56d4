use vstd::prelude::*;

verus! {

/// The byte that parts a host name from its port.
pub const COLON: u8 = 58;

/// The horizontal tab.
pub const TAB: u8 = 9;

/// The first byte that can be read as a visible character: the space.
pub const FIRST_VISIBLE: u8 = 32;

/// The last byte that can be read as a visible character: the tilde.
pub const LAST_VISIBLE: u8 = 126;

/// A byte that a header's text may hold: visible ASCII, or a tab.
pub open spec fn is_text_byte(b: u8) -> bool {
    FIRST_VISIBLE <= b <= LAST_VISIBLE || b == TAB
}

/// A header that can be read as text: every byte of it is a text byte.
pub open spec fn is_text(header: Seq<u8>) -> bool {
    forall|i: int| 0 <= i < header.len() ==> is_text_byte(#[trigger] header[i])
}

/// Where the host name of a `Host` header ends: at its first colon, or at
/// its end if it has none.
pub open spec fn name_end(header: Seq<u8>) -> int
    decreases header.len(),
{
    if header.len() == 0 || header[0] == COLON {
        0
    } else {
        1 + name_end(header.drop_first())
    }
}

/// The host name in a `Host` header: what stands before the port.
pub open spec fn host_name(header: Seq<u8>) -> Seq<u8> {
    header.take(name_end(header))
}

/// A request is let through when it names a host in a header that can be
/// read as text, and that name is the configured one, byte for byte. A
/// request without the header, with another name, with a longer name that
/// only begins with the configured one, or with a byte that is no text, is
/// turned away.
pub open spec fn permitted(header: Option<Seq<u8>>, hostname: Seq<u8>) -> bool {
    match header {
        None => false,
        Some(h) => is_text(h) && host_name(h) == hostname,
    }
}

/// `name_end` marks the first colon: no colon before it, and a colon at it
/// unless it is the header's end.
pub proof fn lemma_name_end(header: Seq<u8>)
    ensures
        0 <= name_end(header) <= header.len(),
        forall|i: int| 0 <= i < name_end(header) ==> header[i] != COLON,
        name_end(header) < header.len() ==> header[name_end(header)] == COLON,
    decreases header.len(),
{
    if header.len() > 0 && header[0] != COLON {
        let rest = header.drop_first();
        lemma_name_end(rest);
        assert forall|i: int| 0 <= i < name_end(header) implies header[i] != COLON by {
            if i > 0 {
                assert(header[i] == rest[i - 1]);
            }
        }
        if name_end(header) < header.len() {
            assert(header[name_end(header)] == rest[name_end(rest)]);
        }
    }
}

/// Whether every byte of `header` is a text byte.
fn readable(header: &[u8]) -> (b: bool)
    ensures
        b == is_text(header@),
{
    let mut k: usize = 0;
    while k < header.len()
        invariant
            k <= header.len(),
            forall|i: int| 0 <= i < k ==> is_text_byte(#[trigger] header@[i]),
        decreases header.len() - k,
    {
        let b = header[k];
        if !((FIRST_VISIBLE <= b && b <= LAST_VISIBLE) || b == TAB) {
            assert(!is_text_byte(header@[k as int]));
            return false;
        }
        k += 1;
    }
    true
}

/// Decides whether a request may pass the host filter: `host` holds the bytes
/// of its `Host` header, `None` where it has none, and `hostname` the bytes of
/// the name that this server answers to.
pub fn host_permitted(host: Option<&[u8]>, hostname: &[u8]) -> (pass: bool)
    ensures
        pass == permitted(
            match host {
                Some(h) => Some(h@),
                None => None,
            },
            hostname@,
        ),
{
    let header = match host {
        Some(h) => h,
        None => {
            return false;
        },
    };
    if !readable(header) {
        return false;
    }
    proof {
        lemma_name_end(header@);
    }
    let n = hostname.len();
    if header.len() < n {
        return false;
    }
    let mut i: usize = 0;
    while i < n
        invariant
            host == Some(header),
            is_text(header@),
            n == hostname.len(),
            i <= n <= header.len(),
            0 <= name_end(header@) <= header@.len(),
            forall|k: int| 0 <= k < name_end(header@) ==> header@[k] != COLON,
            name_end(header@) < header@.len() ==> header@[name_end(header@)] == COLON,
            forall|k: int| 0 <= k < i ==> header@[k] != COLON,
            forall|k: int| 0 <= k < i ==> header@[k] == hostname@[k],
        decreases n - i,
    {
        if header[i] == COLON || header[i] != hostname[i] {
            proof {
                // A name equal to `hostname` would reach past `i` and hold
                // `hostname[i]` there.
                if host_name(header@) == hostname@ {
                    assert(host_name(header@)[i as int] == header@[i as int]);
                }
            }
            return false;
        }
        i += 1;
    }
    let ends = header.len() == n || header[n] == COLON;
    proof {
        let end = name_end(header@);
        if end < n {
            assert(header@[end] == COLON);
        }
        if ends {
            assert(end == n);
            assert(host_name(header@) =~= hostname@);
        } else {
            assert(end > n);
        }
    }
    ends
}

} // verus!

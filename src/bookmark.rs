//! The 460-byte bookmark file that stores one Hotline server's address and
//! the credentials to log in with.
use vstd::prelude::*;

use crate::macroman::{decode_macroman, encode_macroman, macroman_to_string, string_to_macroman};
use crate::wire::{be16, be16_value, get_u16, pstr, put_u16};

verus! {

/// A bookmark file is exactly this long.
pub const BOOKMARK_LENGTH: usize = 460;

/// Where the length byte of each field stands.
pub const USERNAME_OFFSET: usize = 135;
pub const PASSWORD_OFFSET: usize = 169;
pub const ADDRESS_OFFSET: usize = 203;

/// The room for each field after its length byte.
pub const USERNAME_WIDTH: usize = 33;
pub const PASSWORD_WIDTH: usize = 33;
pub const ADDRESS_WIDTH: usize = 256;

pub const BOOKMARK_VERSION: u16 = 1;

/// "HTsc", the magic word of a bookmark file.
pub open spec fn bookmark_magic() -> Seq<u8> {
    seq![0x48u8, 0x54, 0x73, 0x63]
}

pub open spec fn zeros(n: nat) -> Seq<u8> {
    Seq::new(n, |i: int| 0u8)
}

/// A field: its length byte, its bytes, then zeros up to `width`.
pub open spec fn field(s: Seq<u8>, width: nat) -> Seq<u8> {
    pstr(s) + zeros((width - s.len()) as nat)
}

/// The bytes of a bookmark file with these (MacRoman) fields.
pub open spec fn bookmark_bytes(username: Seq<u8>, password: Seq<u8>, address: Seq<u8>) -> Seq<u8> {
    bookmark_magic() + be16(BOOKMARK_VERSION) + zeros(129) + field(username, 33) + field(
        password,
        33,
    ) + field(address, 256)
}

#[derive(Debug, Clone, Copy, PartialEq, Eq, Structural)]
pub enum BookmarkError {
    /// The data ends before a field that must be read.
    TooShort,
    /// The file does not start with "HTsc".
    BadMagic,
    /// The version is not 1.
    BadVersion,
    /// A username or password length byte says more than its room.
    FieldTooLong,
}

/// The (MacRoman) username, password and address that the bookmark data `b`
/// holds, or why it holds none.
pub open spec fn parse_bookmark(b: Seq<u8>) -> Result<(Seq<u8>, Seq<u8>, Seq<u8>), BookmarkError> {
    if b.len() < 6 {
        Err(BookmarkError::TooShort)
    } else if b.subrange(0, 4) != bookmark_magic() {
        Err(BookmarkError::BadMagic)
    } else if be16_value(b[4], b[5]) != BOOKMARK_VERSION {
        Err(BookmarkError::BadVersion)
    } else if b.len() < 204 {
        Err(BookmarkError::TooShort)
    } else if b[135] > 33 || b[169] > 33 {
        Err(BookmarkError::FieldTooLong)
    } else if b.len() < 204 + b[203] {
        Err(BookmarkError::TooShort)
    } else {
        Ok(
            (
                b.subrange(136, 136 + b[135]),
                b.subrange(170, 170 + b[169]),
                b.subrange(204, 204 + b[203]),
            ),
        )
    }
}

/// Reading the bytes of a bookmark file gives back the fields it was made
/// of.
pub proof fn lemma_bookmark_round_trip(username: Seq<u8>, password: Seq<u8>, address: Seq<u8>)
    requires
        username.len() <= 33,
        password.len() <= 33,
        address.len() <= 255,
    ensures
        bookmark_bytes(username, password, address).len() == BOOKMARK_LENGTH,
        parse_bookmark(bookmark_bytes(username, password, address)) == Ok::<
            _,
            BookmarkError,
        >((username, password, address)),
{
    let b = bookmark_bytes(username, password, address);
    let head = bookmark_magic() + be16(BOOKMARK_VERSION) + zeros(129);
    let fu = field(username, 33);
    let fp = field(password, 33);
    let fa = field(address, 256);
    assert(head.len() == 135);
    assert(fu.len() == 34 && fp.len() == 34 && fa.len() == 257);
    assert(b == head + fu + fp + fa);
    assert(b.subrange(0, 4) =~= bookmark_magic());
    assert(b[4] == be16(BOOKMARK_VERSION)[0] && b[5] == be16(BOOKMARK_VERSION)[1]);
    crate::wire::lemma_be16_round_trip(BOOKMARK_VERSION);
    assert(b[135] == fu[0]);
    assert(b[169] == fp[0]);
    assert(b[203] == fa[0]);
    assert(b.subrange(136, 136 + username.len() as int) =~= username);
    assert(b.subrange(170, 170 + password.len() as int) =~= password);
    assert(b.subrange(204, 204 + address.len() as int) =~= address);
}

#[derive(Debug)]
pub struct Bookmark {
    pub address: String,
    pub username: String,
    pub password: String,
}

/// Appends `n` zero bytes.
fn put_zeros(buf: &mut Vec<u8>, n: usize)
    ensures
        final(buf)@ == old(buf)@ + zeros(n as nat),
{
    let mut i: usize = 0;
    while i < n
        invariant
            i <= n,
            buf@ == old(buf)@ + zeros(i as nat),
        decreases n - i,
    {
        buf.push(0);
        assert(zeros((i + 1) as nat) =~= zeros(i as nat).push(0));
        i = i + 1;
    }
}

/// Appends `s` as a field of `width` bytes after its length byte.
fn put_field(buf: &mut Vec<u8>, s: &[u8], width: usize)
    requires
        s@.len() <= width,
        s@.len() <= 255,
    ensures
        final(buf)@ == old(buf)@ + field(s@, width as nat),
{
    buf.push(s.len() as u8);
    let mut i: usize = 0;
    while i < s.len()
        invariant
            i <= s@.len(),
            buf@ == old(buf)@ + seq![s@.len() as u8] + s@.subrange(0, i as int),
        decreases s@.len() - i,
    {
        buf.push(s[i]);
        assert(s@.subrange(0, i + 1) == s@.subrange(0, i as int).push(s@[i as int]));
        i = i + 1;
    }
    assert(s@.subrange(0, s@.len() as int) == s@);
    put_zeros(buf, width - s.len());
    assert(final(buf)@ =~= old(buf)@ + field(s@, width as nat));
}

impl Bookmark {
    /// A bookmark of `address` with no credentials.
    pub fn new(address: String) -> (r: Self)
        ensures
            r.address@ == address@,
            r.username@ == Seq::<char>::empty(),
            r.password@ == Seq::<char>::empty(),
    {
        Bookmark { address, username: String::new(), password: String::new() }
    }

    /// Sets the credentials to log in with.
    pub fn credentials(&mut self, username: String, password: String) -> (r: &mut Self)
        ensures
            r.address@ == old(self).address@,
            r.username@ == username@,
            r.password@ == password@,
            *final(self) == *final(r),
    {
        self.username = username;
        self.password = password;
        self
    }

    /// Whether every field fits its room in the file, one MacRoman byte per
    /// character.
    pub open spec fn fits_spec(&self) -> bool {
        self.username@.len() <= 33 && self.password@.len() <= 33 && self.address@.len() <= 255
    }

    pub fn fits(&self) -> (r: bool)
        ensures
            r == self.fits_spec(),
    {
        self.username.as_str().unicode_len() <= USERNAME_WIDTH
            && self.password.as_str().unicode_len() <= PASSWORD_WIDTH
            && self.address.as_str().unicode_len() <= 255
    }

    /// The bytes of the bookmark file, its fields encoded as MacRoman.
    pub fn to_bytes(&self) -> (r: Vec<u8>)
        requires
            self.fits_spec(),
        ensures
            r@ == bookmark_bytes(
                encode_macroman(self.username@),
                encode_macroman(self.password@),
                encode_macroman(self.address@),
            ),
            r@.len() == BOOKMARK_LENGTH,
    {
        let username = string_to_macroman(self.username.as_str());
        let password = string_to_macroman(self.password.as_str());
        let address = string_to_macroman(self.address.as_str());
        let mut buf: Vec<u8> = Vec::new();
        buf.push(0x48);
        buf.push(0x54);
        buf.push(0x73);
        buf.push(0x63);
        put_u16(&mut buf, BOOKMARK_VERSION);
        put_zeros(&mut buf, USERNAME_OFFSET - 6);
        put_field(&mut buf, username.as_slice(), USERNAME_WIDTH);
        put_field(&mut buf, password.as_slice(), PASSWORD_WIDTH);
        put_field(&mut buf, address.as_slice(), ADDRESS_WIDTH);
        assert(buf@ =~= bookmark_bytes(username@, password@, address@));
        buf
    }

    /// Reads a bookmark from the bytes of its file, decoding its fields from
    /// MacRoman.
    pub fn from_bytes(data: &[u8]) -> (r: Result<Bookmark, BookmarkError>)
        ensures
            match r {
                Ok(b) => parse_bookmark(data@) matches Ok((u, p, a)) && b.username@
                    == decode_macroman(u) && b.password@ == decode_macroman(p) && b.address@
                    == decode_macroman(a),
                Err(e) => parse_bookmark(data@) == Err::<(Seq<u8>, Seq<u8>, Seq<u8>), _>(e),
            },
    {
        if data.len() < 6 {
            return Err(BookmarkError::TooShort);
        }
        if !(data[0] == 0x48 && data[1] == 0x54 && data[2] == 0x73 && data[3] == 0x63) {
            assert(data@.subrange(0, 4) != bookmark_magic()) by {
                if data@.subrange(0, 4) == bookmark_magic() {
                    assert(data@[0] == data@.subrange(0, 4)[0]);
                    assert(data@[1] == data@.subrange(0, 4)[1]);
                    assert(data@[2] == data@.subrange(0, 4)[2]);
                    assert(data@[3] == data@.subrange(0, 4)[3]);
                }
            }
            return Err(BookmarkError::BadMagic);
        }
        assert(data@.subrange(0, 4) =~= bookmark_magic());
        if get_u16(data, 4) != BOOKMARK_VERSION {
            return Err(BookmarkError::BadVersion);
        }
        if data.len() < ADDRESS_OFFSET + 1 {
            return Err(BookmarkError::TooShort);
        }
        let ul = data[USERNAME_OFFSET] as usize;
        let pl = data[PASSWORD_OFFSET] as usize;
        let al = data[ADDRESS_OFFSET] as usize;
        if ul > USERNAME_WIDTH || pl > PASSWORD_WIDTH {
            return Err(BookmarkError::FieldTooLong);
        }
        if data.len() < ADDRESS_OFFSET + 1 + al {
            return Err(BookmarkError::TooShort);
        }
        let username = macroman_to_string(vstd::slice::slice_subrange(data, 136, 136 + ul));
        let password = macroman_to_string(vstd::slice::slice_subrange(data, 170, 170 + pl));
        let address = macroman_to_string(vstd::slice::slice_subrange(data, 204, 204 + al));
        Ok(Bookmark { address, username, password })
    }
}

} // verus!

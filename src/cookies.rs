//! A bounded first-in first-out store of cookies.

use vstd::prelude::*;

verus! {

/// How many cookies a stash holds at most.
pub const MAX_COOKIES: usize = 8;

/// The cookies after storing `cookie` in `cookies`: it goes at the back, and
/// when the stash is full the oldest one is dropped.
pub open spec fn stored(cookies: Seq<Seq<u8>>, cookie: Seq<u8>) -> Seq<Seq<u8>> {
    if cookies.len() < MAX_COOKIES {
        cookies.push(cookie)
    } else {
        cookies.skip(1).push(cookie)
    }
}

/// One-time cookies received from a server, oldest first.
#[derive(Debug, Clone)]
pub struct CookieStash {
    cookies: Vec<Vec<u8>>,
}

impl View for CookieStash {
    type V = Seq<Seq<u8>>;

    closed spec fn view(&self) -> Seq<Seq<u8>> {
        self.cookies@.map_values(|c: Vec<u8>| c@)
    }
}

impl CookieStash {
    /// The stash holds no more than it may.
    pub open spec fn wf(&self) -> bool {
        self@.len() <= MAX_COOKIES
    }

    pub fn new() -> (r: Self)
        ensures
            r@ == Seq::<Seq<u8>>::empty(),
            r.wf(),
    {
        let r = CookieStash { cookies: Vec::new() };
        assert(r@ =~= Seq::<Seq<u8>>::empty());
        r
    }

    /// Stores a cookie, dropping the oldest one when the stash is full.
    pub fn store(&mut self, cookie: Vec<u8>)
        requires
            old(self).wf(),
        ensures
            final(self)@ == stored(old(self)@, cookie@),
            final(self).wf(),
    {
        let ghost c = cookie@;
        if self.cookies.len() >= MAX_COOKIES {
            self.cookies.remove(0);
        }
        self.cookies.push(cookie);
        assert(self@ =~= stored(old(self)@, c));
    }

    pub fn len(&self) -> (r: usize)
        ensures
            r == self@.len(),
    {
        self.cookies.len()
    }

    pub fn is_empty(&self) -> (r: bool)
        ensures
            r == (self@.len() == 0),
    {
        self.cookies.len() == 0
    }

    /// How many more cookies the stash has room for.
    pub fn gap(&self) -> (r: u16)
        requires
            self.wf(),
        ensures
            r == MAX_COOKIES - self@.len(),
    {
        (MAX_COOKIES - self.cookies.len()) as u16
    }
}

} // verus!

use vstd::prelude::*;

use crate::palette::Color;

verus! {

/// The request methods the client offers, in the order they cycle.
#[derive(Clone, Copy, PartialEq, Eq, Debug, Structural)]
pub enum HttpMethod {
    Get,
    Post,
    Put,
    Patch,
    Delete,
}

/// The cycle order: `GET → POST → PUT → PATCH → DELETE → GET`.
pub open spec fn method_order() -> Seq<HttpMethod> {
    seq![HttpMethod::Get, HttpMethod::Post, HttpMethod::Put, HttpMethod::Patch, HttpMethod::Delete]
}

impl HttpMethod {
    /// Position of the method in [`method_order`].
    pub open spec fn index(self) -> int {
        match self {
            HttpMethod::Get => 0,
            HttpMethod::Post => 1,
            HttpMethod::Put => 2,
            HttpMethod::Patch => 3,
            HttpMethod::Delete => 4,
        }
    }

    /// The method's name as sent on the wire.
    pub open spec fn name(self) -> Seq<char> {
        match self {
            HttpMethod::Get => "GET"@,
            HttpMethod::Post => "POST"@,
            HttpMethod::Put => "PUT"@,
            HttpMethod::Patch => "PATCH"@,
            HttpMethod::Delete => "DELETE"@,
        }
    }

    pub open spec fn spec_next(self) -> HttpMethod {
        method_order()[(self.index() + 1) % 5]
    }

    pub open spec fn spec_prev(self) -> HttpMethod {
        method_order()[(self.index() + 4) % 5]
    }

    pub fn as_str(self) -> (r: &'static str)
        ensures
            r@ == self.name(),
    {
        match self {
            HttpMethod::Get => "GET",
            HttpMethod::Post => "POST",
            HttpMethod::Put => "PUT",
            HttpMethod::Patch => "PATCH",
            HttpMethod::Delete => "DELETE",
        }
    }

    pub fn all() -> (r: &'static [HttpMethod])
        ensures
            r@ == method_order(),
    {
        &[HttpMethod::Get, HttpMethod::Post, HttpMethod::Put, HttpMethod::Patch, HttpMethod::Delete]
    }

    /// The first index of `m` in `all`, or 0 where it does not occur.
    fn position_in(all: &[HttpMethod], m: HttpMethod) -> (idx: usize)
        ensures
            (exists|i: int| 0 <= i < all@.len() && all@[i] == m) ==> {
                &&& idx < all@.len()
                &&& all@[idx as int] == m
                &&& forall|i: int| 0 <= i < idx ==> all@[i] != m
            },
            (forall|i: int| 0 <= i < all@.len() ==> all@[i] != m) ==> idx == 0,
    {
        let mut i: usize = 0;
        while i < all.len()
            invariant
                i <= all@.len(),
                forall|j: int| 0 <= j < i ==> all@[j] != m,
            decreases all@.len() - i,
        {
            if all[i] == m {
                return i;
            }
            i = i + 1;
        }
        0
    }

    /// The method after this one in the cycle, wrapping from `DELETE` to `GET`.
    pub fn next(self) -> (r: Self)
        ensures
            r == self.spec_next(),
    {
        let all = Self::all();
        let idx = Self::position_in(all, self);
        proof {
            assert(all@[self.index()] == self);
        }
        all[(idx + 1) % all.len()]
    }

    /// The method before this one in the cycle, wrapping from `GET` to `DELETE`.
    pub fn prev(self) -> (r: Self)
        ensures
            r == self.spec_prev(),
    {
        let all = Self::all();
        let idx = Self::position_in(all, self);
        proof {
            assert(all@[self.index()] == self);
        }
        all[(idx + all.len() - 1) % all.len()]
    }
    /// The colour of the method's badge: GET green, POST blue, PUT yellow,
    /// PATCH cyan, DELETE red.
    pub open spec fn badge_color(self) -> Color {
        match self {
            HttpMethod::Get => Color::Green,
            HttpMethod::Post => Color::Blue,
            HttpMethod::Put => Color::Yellow,
            HttpMethod::Patch => Color::Cyan,
            HttpMethod::Delete => Color::Red,
        }
    }

    /// Requests with this method carry the body: POST, PUT and PATCH.
    pub open spec fn sends_body(self) -> bool {
        self == HttpMethod::Post || self == HttpMethod::Put || self == HttpMethod::Patch
    }

    /// The colour the method's badge is drawn in.
    pub fn color(self) -> (c: Color)
        ensures
            c == self.badge_color(),
    {
        match self {
            HttpMethod::Get => Color::Green,
            HttpMethod::Post => Color::Blue,
            HttpMethod::Put => Color::Yellow,
            HttpMethod::Patch => Color::Cyan,
            HttpMethod::Delete => Color::Red,
        }
    }

    /// Whether a request with this method carries the body
    /// (`POST`, `PUT` and `PATCH` do; `GET` and `DELETE` do not).
    pub fn carries_body(self) -> (b: bool)
        ensures
            b == self.sends_body(),
    {
        match self {
            HttpMethod::Post | HttpMethod::Put | HttpMethod::Patch => true,
            _ => false,
        }
    }
}

} // verus!

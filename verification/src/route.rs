//! Route derivation and request routing: the lowercase word-separated
//! path segment a method identifier is served under, the service
//! descriptor both generators consume, and the dispatcher's routing
//! decision for an inbound request.
use vstd::prelude::*;
use vstd::string::StrSliceExecFns;
use vstd::string::StringExecFns;

use crate::json::str_eq;
use crate::json::to_chars;

verus! {

/// A method route accepts request bodies up to this many bytes; larger
/// bodies are turned away before any implementation logic runs.
pub const MAX_REQUEST_BODY_BYTES: usize = 16384;

/// An ASCII capital letter.
pub open spec fn is_ascii_upper(c: char) -> bool {
    65 <= c as u32 <= 90
}

/// An ASCII capital letter lowered; anything else unchanged.
pub open spec fn lower_char(c: char) -> char {
    if is_ascii_upper(c) {
        (((c as u32 + 32) as u8) as char)
    } else {
        c
    }
}

/// The word-separated lowering of an identifier, given the character
/// just before it: a capital that does not follow an underscore opens a
/// new word.
pub open spec fn snake_from(s: Seq<char>, prev: char) -> Seq<char>
    decreases s.len(),
{
    if s.len() == 0 {
        Seq::empty()
    } else {
        let c = s[0];
        let head: Seq<char> = if is_ascii_upper(c) && prev != '_' {
            seq!['_', lower_char(c)]
        } else {
            seq![lower_char(c)]
        };
        head + snake_from(s.skip(1), c)
    }
}

/// The route segment a method identifier is served under: its lowercase
/// word-separated rendering. A pure function of the identifier alone.
pub open spec fn segment_of(ident: Seq<char>) -> Seq<char> {
    snake_from(ident, '_')
}

/// The full route path: a path separator followed by the segment.
pub open spec fn route_path_of(ident: Seq<char>) -> Seq<char> {
    seq!['/'] + segment_of(ident)
}

fn push_segment(out: &mut String, v: &Vec<char>, i: usize, prev: char)
    requires
        i <= v@.len(),
    ensures
        final(out)@ == old(out)@ + snake_from(v@.skip(i as int), prev),
    decreases v@.len() - i,
{
    if i == v.len() {
        proof {
            assert(v@.skip(i as int) =~= Seq::<char>::empty());
            assert(old(out)@ + snake_from(v@.skip(i as int), prev) =~= old(out)@);
        }
    } else {
        let c = v[i];
        let b = c as u32;
        let upper = 65 <= b && b <= 90;
        if upper && prev != '_' {
            out.push('_');
        }
        let lc = if upper {
            ((b + 32) as u8) as char
        } else {
            c
        };
        out.push(lc);
        proof {
            let s = v@.skip(i as int);
            assert(s[0] == v@[i as int]);
            if upper && prev != '_' {
                assert(out@ =~= old(out)@ + seq!['_', lower_char(s[0])]);
            } else {
                assert(out@ =~= old(out)@ + seq![lower_char(s[0])]);
            }
        }
        push_segment(out, v, i + 1, c);
        proof {
            let s = v@.skip(i as int);
            assert(s.skip(1) =~= v@.skip(i as int + 1));
            assert(out@ =~= old(out)@ + snake_from(s, prev));
        }
    }
}

/// The route segment for a method identifier.
pub fn route_segment(ident: &str) -> (r: String)
    ensures
        r@ == segment_of(ident@),
{
    let v = to_chars(ident);
    let mut out = String::new();
    push_segment(&mut out, &v, 0, '_');
    proof {
        assert(v@.skip(0) =~= ident@);
    }
    out
}

/// The full route path for a method identifier.
pub fn route_path(ident: &str) -> (r: String)
    ensures
        r@ == route_path_of(ident@),
{
    let mut out = String::from_str("/");
    let seg = route_segment(ident);
    out.append(seg.as_str());
    proof {
        reveal_strlit("/");
        assert(out@ =~= seq!['/'] + segment_of(ident@));
    }
    out
}

/// Generation-time view of a service: its identifier and the ordered
/// method identifiers.
pub ghost struct DescriptorView {
    pub service: Seq<char>,
    pub methods: Seq<Seq<char>>,
}

/// The shape both generators consume: a service identifier plus an
/// ordered list of method identifiers, unique within the descriptor.
pub struct ServiceDescriptor {
    pub service: String,
    pub methods: Vec<String>,
}

impl View for ServiceDescriptor {
    type V = DescriptorView;

    open spec fn view(&self) -> DescriptorView {
        DescriptorView {
            service: self.service@,
            methods: self.methods@.map_values(|m: String| m@),
        }
    }
}

/// Method identifiers are unique within a descriptor.
pub open spec fn distinct_methods(methods: Seq<Seq<char>>) -> bool {
    forall|p: int, q: int| 0 <= p < q < methods.len() ==> methods[p] != methods[q]
}

/// The route paths of a descriptor's methods, in order.
pub open spec fn routes_of(d: DescriptorView) -> Seq<Seq<char>> {
    d.methods.map_values(|m: Seq<char>| route_path_of(m))
}

/// Route derivation is a pure function of the method identifiers alone:
/// descriptors with identical method lists serve identical route paths,
/// whatever their service names.
pub proof fn lemma_identical_methods_identical_routes(a: DescriptorView, b: DescriptorView)
    requires
        a.methods == b.methods,
    ensures
        routes_of(a) == routes_of(b),
{
}

impl ServiceDescriptor {
    /// A descriptor from a service identifier and its method
    /// identifiers; refused exactly when two methods share a name.
    pub fn new(service: String, methods: Vec<String>) -> (r: Option<ServiceDescriptor>)
        ensures
            match r {
                Some(d) => d@.service == service@ && d@.methods == methods@.map_values(
                    |m: String| m@,
                ) && distinct_methods(d@.methods),
                None => !distinct_methods(methods@.map_values(|m: String| m@)),
            },
    {
        let n = methods.len();
        let ghost ms = methods@.map_values(|m: String| m@);
        let mut i: usize = 0;
        while i < n
            invariant
                n == methods@.len(),
                ms == methods@.map_values(|m: String| m@),
                i <= n,
                forall|p: int, q: int| 0 <= p < q < n && p < i ==> ms[p] != ms[q],
            decreases n - i,
        {
            let mut j: usize = i + 1;
            while j < n
                invariant
                    n == methods@.len(),
                    ms == methods@.map_values(|m: String| m@),
                    i < j <= n,
                    forall|q: int| i < q < j ==> ms[i as int] != ms[q],
                decreases n - j,
            {
                if str_eq(methods[i].as_str(), methods[j].as_str()) {
                    proof {
                        assert(ms[i as int] == ms[j as int]);
                    }
                    return None;
                }
                j += 1;
            }
            i += 1;
        }
        Some(ServiceDescriptor { service, methods })
    }

    /// The service identifier.
    pub fn service_name(&self) -> (r: &String)
        ensures
            r@ == self@.service,
    {
        &self.service
    }

    /// The route paths of this descriptor's methods, in order.
    pub fn route_paths(&self) -> (r: Vec<String>)
        ensures
            r@.map_values(|p: String| p@) == routes_of(self@),
    {
        let n = self.methods.len();
        let mut r: Vec<String> = Vec::new();
        let mut i: usize = 0;
        while i < n
            invariant
                n == self.methods@.len(),
                i <= n,
                r@.len() == i,
                forall|k: int| 0 <= k < i ==> r@[k]@ == route_path_of(self@.methods[k]),
            decreases n - i,
        {
            let p = route_path(self.methods[i].as_str());
            r.push(p);
            i += 1;
        }
        proof {
            assert(r@.map_values(|p: String| p@) =~= routes_of(self@));
        }
        r
    }
}

/// What the dispatcher does with an inbound request: answer the health
/// route, hand the body to the method at an index, turn an oversized
/// body away, or have no route for it.
#[derive(Clone, Copy, Debug, PartialEq, Eq, Structural)]
pub enum RouteDecision {
    Health,
    Invoke(usize),
    TooLarge,
    NoRoute,
}

/// The first method whose route segment is the requested one.
pub open spec fn find_route(methods: Seq<Seq<char>>, seg: Seq<char>) -> Option<int>
    decreases methods.len(),
{
    if methods.len() == 0 {
        None
    } else if segment_of(methods[0]) == seg {
        Some(0)
    } else {
        match find_route(methods.skip(1), seg) {
            Some(i) => Some(i + 1),
            None => None,
        }
    }
}

pub proof fn lemma_find_route_characterization(methods: Seq<Seq<char>>, seg: Seq<char>)
    ensures
        match find_route(methods, seg) {
            Some(i) => 0 <= i < methods.len() && segment_of(methods[i]) == seg && (forall|j: int|
                0 <= j < i ==> segment_of(methods[j]) != seg),
            None => forall|j: int| 0 <= j < methods.len() ==> segment_of(methods[j]) != seg,
        },
    decreases methods.len(),
{
    if methods.len() == 0 {
    } else if segment_of(methods[0]) == seg {
    } else {
        lemma_find_route_characterization(methods.skip(1), seg);
        match find_route(methods.skip(1), seg) {
            Some(i) => {
                assert(methods.skip(1)[i] == methods[i + 1]);
                assert forall|j: int| 0 <= j < i + 1 implies segment_of(methods[j]) != seg by {
                    if 1 <= j {
                        assert(methods[j] == methods.skip(1)[j - 1]);
                    }
                }
            },
            None => {
                assert forall|j: int| 0 <= j < methods.len() implies segment_of(methods[j])
                    != seg by {
                    if 1 <= j {
                        assert(methods[j] == methods.skip(1)[j - 1]);
                    }
                }
            },
        }
    }
}

/// The routing decision for one inbound request: the health route
/// answers a GET of the health path; a POST goes to the first method
/// whose segment matches, unless its body is over the limit.
pub open spec fn route_spec(
    d: DescriptorView,
    is_get: bool,
    seg: Seq<char>,
    body_len: int,
) -> RouteDecision {
    if is_get {
        if seg == "_health"@ {
            RouteDecision::Health
        } else {
            RouteDecision::NoRoute
        }
    } else {
        match find_route(d.methods, seg) {
            None => RouteDecision::NoRoute,
            Some(i) => if body_len <= MAX_REQUEST_BODY_BYTES as int {
                RouteDecision::Invoke(i as usize)
            } else {
                RouteDecision::TooLarge
            },
        }
    }
}

/// A request body over the limit never reaches a method: no body length
/// above the limit routes to an invocation.
pub proof fn lemma_oversized_body_never_invoked(
    d: DescriptorView,
    is_get: bool,
    seg: Seq<char>,
    body_len: int,
    i: usize,
)
    requires
        body_len > MAX_REQUEST_BODY_BYTES as int,
    ensures
        route_spec(d, is_get, seg, body_len) != RouteDecision::Invoke(i),
{
}

/// A GET of the health path is answered by the health route for every
/// descriptor and every body length: no implementation state is
/// consulted.
pub proof fn lemma_health_always_routed(d: DescriptorView, body_len: int)
    ensures
        route_spec(d, true, "_health"@, body_len) == RouteDecision::Health,
{
}

impl ServiceDescriptor {
    /// Decide an inbound request: `is_get` and `segment` name the route
    /// asked for, `body_len` the request body's size in bytes.
    pub fn route(&self, is_get: bool, segment: &str, body_len: usize) -> (r: RouteDecision)
        ensures
            r == route_spec(self@, is_get, segment@, body_len as int),
    {
        if is_get {
            if str_eq(segment, "_health") {
                RouteDecision::Health
            } else {
                RouteDecision::NoRoute
            }
        } else {
            let n = self.methods.len();
            let mut i: usize = 0;
            while i < n
                invariant
                    !is_get,
                    n == self.methods@.len(),
                    i <= n,
                    forall|j: int| 0 <= j < i ==> segment_of(self@.methods[j]) != segment@,
                decreases n - i,
            {
                let sgm = route_segment(self.methods[i].as_str());
                if str_eq(sgm.as_str(), segment) {
                    proof {
                        lemma_find_route_characterization(self@.methods, segment@);
                        assert(segment_of(self@.methods[i as int]) == segment@);
                        assert(find_route(self@.methods, segment@) == Some(i as int));
                    }
                    if body_len <= MAX_REQUEST_BODY_BYTES {
                        return RouteDecision::Invoke(i);
                    } else {
                        return RouteDecision::TooLarge;
                    }
                }
                i += 1;
            }
            proof {
                lemma_find_route_characterization(self@.methods, segment@);
            }
            RouteDecision::NoRoute
        }
    }
}

} // verus!

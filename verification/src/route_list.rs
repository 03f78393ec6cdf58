//! The list of routes that an application can serve, and the pass that
//! collects it.
//!
//! Collecting is explicit: a [`RouteGeneration`] is handed to the
//! application, which registers its routes there while it renders once.

use vstd::prelude::*;

verus! {

/// How a route is rendered on the server.
#[derive(Clone, Copy, Debug, PartialEq, Eq, Hash, Structural)]
pub enum SsrMode {
    OutOfOrder,
    PartiallyBlocked,
    InOrder,
    Async,
}

/// An HTTP request method.
#[derive(Clone, Copy, Debug, PartialEq, Eq, Hash, Structural)]
pub enum Method {
    Get,
    Post,
    Put,
    Delete,
    Patch,
}

/// When a statically rendered route is built.
#[derive(Clone, Copy, Debug, PartialEq, Eq, Hash, Structural)]
pub enum StaticMode {
    Incremental,
    Upfront,
}

/// The values of `methods` in the order of their first occurrence.
pub open spec fn first_occurrences(methods: Seq<Method>) -> Seq<Method>
    decreases methods.len(),
{
    if methods.len() == 0 {
        Seq::empty()
    } else {
        let seen = first_occurrences(methods.drop_last());
        if seen.contains(methods.last()) {
            seen
        } else {
            seen.push(methods.last())
        }
    }
}

/// What a route listing says.
pub struct RouteListingView {
    pub path: Seq<char>,
    pub leptos_path: Seq<char>,
    pub mode: SsrMode,
    pub methods: Seq<Method>,
    pub static_mode: Option<StaticMode>,
}

/// A route that this application can serve.
#[derive(Debug)]
pub struct RouteListing {
    path: String,
    leptos_path: String,
    mode: SsrMode,
    methods: Vec<Method>,
    static_mode: Option<StaticMode>,
}

impl View for RouteListing {
    type V = RouteListingView;

    closed spec fn view(&self) -> RouteListingView {
        RouteListingView {
            path: self.path@,
            leptos_path: self.leptos_path@,
            mode: self.mode,
            methods: self.methods@,
            static_mode: self.static_mode,
        }
    }
}

impl Clone for RouteListing {
    fn clone(&self) -> (copy: RouteListing)
        ensures
            copy@ == self@,
    {
        proof {
            use_type_invariant(self);
        }
        RouteListing {
            path: self.path.clone(),
            leptos_path: self.leptos_path.clone(),
            mode: self.mode,
            methods: self.methods.clone(),
            static_mode: self.static_mode,
        }
    }
}

/// Whether `methods` holds `method`.
fn has_method(methods: &Vec<Method>, method: Method) -> (found: bool)
    ensures
        found == methods@.contains(method),
{
    let mut i: usize = 0;
    while i < methods.len()
        invariant
            i <= methods.len(),
            forall|j: int| 0 <= j < i ==> methods@[j] != method,
        decreases methods.len() - i,
    {
        if methods[i] == method {
            return true;
        }
        i += 1;
    }
    false
}

impl RouteListing {
    /// No method is listed twice.
    #[verifier::type_invariant]
    spec fn wf(&self) -> bool {
        self.methods@.no_duplicates()
    }

    /// Create a route listing from its parts. Each method is listed once,
    /// where it first occurs.
    pub fn new(
        path: &str,
        leptos_path: &str,
        mode: SsrMode,
        methods: Vec<Method>,
        static_mode: Option<StaticMode>,
    ) -> (listing: RouteListing)
        ensures
            listing@ == (RouteListingView {
                path: path@,
                leptos_path: leptos_path@,
                mode,
                methods: first_occurrences(methods@),
                static_mode,
            }),
    {
        let mut unique: Vec<Method> = Vec::new();
        let mut i: usize = 0;
        while i < methods.len()
            invariant
                i <= methods.len(),
                unique@ == first_occurrences(methods@.take(i as int)),
                unique@.no_duplicates(),
            decreases methods.len() - i,
        {
            proof {
                assert(methods@.take(i + 1).drop_last() =~= methods@.take(i as int));
            }
            if !has_method(&unique, methods[i]) {
                unique.push(methods[i]);
            }
            i += 1;
        }
        proof {
            assert(methods@.take(i as int) =~= methods@);
        }
        RouteListing {
            path: path.to_owned(),
            leptos_path: leptos_path.to_owned(),
            mode,
            methods: unique,
            static_mode,
        }
    }

    /// The path this route handles.
    pub fn path(&self) -> (path: &str)
        ensures
            path@ == self@.path,
    {
        self.path.as_str()
    }

    /// The leptos-formatted path this route handles.
    pub fn leptos_path(&self) -> (path: &str)
        ensures
            path@ == self@.leptos_path,
    {
        self.leptos_path.as_str()
    }

    /// The rendering mode for this path.
    pub fn mode(&self) -> (mode: SsrMode)
        ensures
            mode == self@.mode,
    {
        self.mode
    }

    /// The HTTP request methods this path can handle, each once.
    pub fn methods(&self) -> (methods: Vec<Method>)
        ensures
            methods@ == self@.methods,
            methods@.no_duplicates(),
    {
        proof {
            use_type_invariant(self);
        }
        self.methods.clone()
    }

    /// Whether this route is statically rendered.
    pub fn static_mode(&self) -> (mode: Option<StaticMode>)
        ensures
            mode == self@.static_mode,
    {
        self.static_mode
    }
}

/// The routes of an application, each with the static data `D` that goes
/// with it.
#[derive(Debug)]
pub struct RouteList<D>(Vec<(RouteListing, D)>);

impl<D> View for RouteList<D> {
    type V = Seq<(RouteListing, D)>;

    closed spec fn view(&self) -> Seq<(RouteListing, D)> {
        self.0@
    }
}

/// The state of one pass that collects the routes of an application.
pub struct RouteGeneration<D> {
    /// Whether the pass is collecting.
    pub generating: bool,
    /// The list registered last, if any.
    pub generated: Option<RouteList<D>>,
}

impl<D> RouteGeneration<D> {
    /// A pass that has not started and holds no list.
    pub fn new() -> (pass: Self)
        ensures
            !pass.generating(),
            pass.generated() is None,
    {
        RouteGeneration { generating: false, generated: None }
    }

    /// Whether the pass is collecting.
    pub open spec fn generating(&self) -> bool {
        self.generating
    }

    /// The list registered last, if any.
    pub open spec fn generated(&self) -> Option<RouteList<D>> {
        self.generated
    }

    /// This pass as the application receives it: collecting, with the list
    /// registered last.
    pub open spec fn started(&self) -> RouteGeneration<D> {
        RouteGeneration { generating: true, generated: self.generated }
    }
}

impl<D> RouteList<D> {
    pub fn new(routes: Vec<(RouteListing, D)>) -> (list: Self)
        ensures
            list@ == routes@,
    {
        RouteList(routes)
    }

    pub fn into_inner(self) -> (routes: Vec<(RouteListing, D)>)
        ensures
            routes@ == self@,
    {
        self.0
    }

    /// Runs the application once while the pass is collecting, and returns
    /// the list that the application left registered. The pass ends
    /// stopped and empty.
    pub fn generate<F: FnOnce(RouteGeneration<D>) -> RouteGeneration<D>>(
        pass: &mut RouteGeneration<D>,
        app: F,
    ) -> (routes: Option<Self>)
        requires
            call_requires(app, (old(pass).started(),)),
        ensures
            exists|after: RouteGeneration<D>| #[trigger]
                call_ensures(app, (old(pass).started(),), after) && routes == after.generated(),
            !final(pass).generating(),
            final(pass).generated() is None,
    {
        let started = RouteGeneration { generating: true, generated: pass.generated.take() };
        // run the app once: the router will not route, but fill the listing
        let after = app(started);
        pass.generating = false;
        after.generated
    }

    /// Whether the given pass is collecting routes.
    pub fn is_generating(pass: &RouteGeneration<D>) -> (generating: bool)
        ensures
            generating == pass.generating(),
    {
        pass.generating
    }

    /// Leaves `routes` with the pass, in place of any list left before.
    pub fn register(pass: &mut RouteGeneration<D>, routes: RouteList<D>)
        ensures
            final(pass).generated() == Some(routes),
            final(pass).generating() == old(pass).generating(),
    {
        pass.generated = Some(routes);
    }
}

} // verus!

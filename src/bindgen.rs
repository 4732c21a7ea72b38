//! The configuration of one binding-generation run.
use vstd::prelude::*;

verus! {

/// What a generation run reads and which outputs it produces.
pub struct Bindgen {
    /// The module to read.
    pub path: Option<String>,
    pub nodejs: bool,
    pub browser: bool,
    pub no_modules: bool,
    /// The global name used when no module system is targeted.
    pub no_modules_global: Option<String>,
    pub debug: bool,
    pub typescript: bool,
    pub demangle: bool,
}

impl Bindgen {
    /// No input yet, every target and option off but demangling.
    pub fn new() -> (r: Bindgen)
        ensures
            r.path is None,
            !r.nodejs && !r.browser && !r.no_modules && !r.debug && !r.typescript,
            r.no_modules_global is None,
            r.demangle,
    {
        Bindgen {
            path: None,
            nodejs: false,
            browser: false,
            no_modules: false,
            no_modules_global: None,
            debug: false,
            typescript: false,
            demangle: true,
        }
    }

    pub fn input_path(&mut self, path: &str) -> (r: &mut Bindgen)
        ensures
            r.path is Some && r.path->0@ == path@,
            *r == (Bindgen { path: r.path, ..*old(self) }),
            *final(self) == *final(r),
    {
        self.path = Some(path.to_owned());
        self
    }

    pub fn nodejs(&mut self, node: bool) -> (r: &mut Bindgen)
        ensures
            *r == (Bindgen { nodejs: node, ..*old(self) }),
            *final(self) == *final(r),
    {
        self.nodejs = node;
        self
    }

    pub fn browser(&mut self, browser: bool) -> (r: &mut Bindgen)
        ensures
            *r == (Bindgen { browser, ..*old(self) }),
            *final(self) == *final(r),
    {
        self.browser = browser;
        self
    }

    pub fn no_modules(&mut self, no_modules: bool) -> (r: &mut Bindgen)
        ensures
            *r == (Bindgen { no_modules, ..*old(self) }),
            *final(self) == *final(r),
    {
        self.no_modules = no_modules;
        self
    }

    pub fn no_modules_global(&mut self, name: &str) -> (r: &mut Bindgen)
        ensures
            r.no_modules_global is Some && r.no_modules_global->0@ == name@,
            *r == (Bindgen { no_modules_global: r.no_modules_global, ..*old(self) }),
            *final(self) == *final(r),
    {
        self.no_modules_global = Some(name.to_owned());
        self
    }

    pub fn debug(&mut self, debug: bool) -> (r: &mut Bindgen)
        ensures
            *r == (Bindgen { debug, ..*old(self) }),
            *final(self) == *final(r),
    {
        self.debug = debug;
        self
    }

    pub fn typescript(&mut self, typescript: bool) -> (r: &mut Bindgen)
        ensures
            *r == (Bindgen { typescript, ..*old(self) }),
            *final(self) == *final(r),
    {
        self.typescript = typescript;
        self
    }

    pub fn demangle(&mut self, demangle: bool) -> (r: &mut Bindgen)
        ensures
            *r == (Bindgen { demangle, ..*old(self) }),
            *final(self) == *final(r),
    {
        self.demangle = demangle;
        self
    }
}

} // verus!

use vstd::prelude::*;

use crate::error::BldrError;
use crate::package::{ident_text, joined, join, Package, PACKAGE_HOME, SERVICE_HOME};

verus! {

/// The lifecycle hooks a package may define.
#[derive(Debug, Clone, Copy, PartialEq, Eq, Structural)]
pub enum HookType {
    HealthCheck,
    Reconfigure,
    Run,
    Init,
}

/// The file name of each hook, in the package's and the service's `hooks/`.
pub open spec fn hook_file_name(t: HookType) -> Seq<char> {
    match t {
        HookType::Init => "init"@,
        HookType::HealthCheck => "health_check"@,
        HookType::Reconfigure => "reconfigure"@,
        HookType::Run => "run"@,
    }
}

/// Where a package keeps the template of a hook.
pub open spec fn hook_template_text(p: Package, t: HookType) -> Seq<char> {
    joined(joined(joined(PACKAGE_HOME@, ident_text(p)), "hooks"@), hook_file_name(t))
}

/// Where the service keeps the compiled hook.
pub open spec fn hook_path_text(p: Package, t: HookType) -> Seq<char> {
    joined(joined(joined(SERVICE_HOME@, p.name@), "hooks"@), hook_file_name(t))
}

impl HookType {
    /// The hook's file name.
    pub fn file_name(&self) -> (r: &'static str)
        ensures
            r@ == hook_file_name(*self),
    {
        match self {
            HookType::Init => "init",
            HookType::HealthCheck => "health_check",
            HookType::Reconfigure => "reconfigure",
            HookType::Run => "run",
        }
    }
}

/// What running a hook yields, given its exit code (`None` where the
/// process reported none) and its captured output.
pub open spec fn run_result(htype: HookType, code: Option<i32>, output: String) -> Result<
    String,
    BldrError,
> {
    match code {
        Some(0) => Ok(output),
        Some(c) => Err(BldrError::HookFailed(htype, c, output)),
        None => Err(BldrError::HookFailed(htype, -1i32, output)),
    }
}

/// A hook: its type, its template and the path it is compiled to.
pub struct Hook {
    pub htype: HookType,
    pub template: String,
    pub path: String,
}

impl Hook {
    pub fn new(htype: HookType, template: String, path: String) -> (r: Self)
        ensures
            r.htype == htype,
            r.template == template,
            r.path == path,
    {
        Hook { htype: htype, template: template, path: path }
    }

    /// The result of a run that exited with `code`, having printed `output`.
    pub fn finish(&self, code: Option<i32>, output: String) -> (r: Result<String, BldrError>)
        ensures
            r == run_result(self.htype, code, output),
    {
        match code {
            Some(0) => Ok(output),
            Some(c) => Err(BldrError::HookFailed(self.htype, c, output)),
            None => Err(BldrError::HookFailed(self.htype, -1, output)),
        }
    }

    /// The failure of a run whose process could not be started.
    pub fn launch_failed(&self) -> (r: BldrError)
        ensures
            r matches BldrError::HookFailed(t, c, s) && t == self.htype && c == -1 && s@
                == "couldn't run hook: "@ + self.path@,
    {
        BldrError::HookFailed(
            self.htype,
            -1,
            String::from_str("couldn't run hook: ").concat(self.path.as_str()),
        )
    }

    /// The captured output of a hook: standard output, a newline, standard error.
    pub fn format_output(stdout: &str, stderr: &str) -> (r: String)
        ensures
            r@ == stdout@ + seq!['\n'] + stderr@,
    {
        let r = String::from_str(stdout).concat("\n").concat(stderr);
        proof {
            reveal_strlit("\n");
            assert(r@ =~= stdout@ + seq!['\n'] + stderr@);
        }
        r
    }
}

/// `h` is the hook of type `t` for package `p`.
pub open spec fn is_hook_for(h: Hook, p: Package, t: HookType) -> bool {
    &&& h.htype == t
    &&& h.template@ == hook_template_text(p, t)
    &&& h.path@ == hook_path_text(p, t)
}

/// The slot of a table is filled exactly when the template is there.
pub open spec fn slot_loaded(slot: Option<Hook>, p: Package, t: HookType, present: bool) -> bool {
    match slot {
        Some(h) => present && is_hook_for(h, p, t),
        None => !present,
    }
}

/// At most one hook of each type for a package.
pub struct HookTable<'a> {
    pub package: &'a Package,
    pub init_hook: Option<Hook>,
    pub health_check_hook: Option<Hook>,
    pub reconfigure_hook: Option<Hook>,
    pub run_hook: Option<Hook>,
}

/// Whether `ts` holds `t`.
fn holds_type(ts: &Vec<HookType>, t: HookType) -> (r: bool)
    ensures
        r == ts@.contains(t),
{
    let mut i: usize = 0;
    while i < ts.len()
        invariant
            i <= ts@.len(),
            forall|j: int| 0 <= j < i ==> ts@[j] != t,
        decreases ts@.len() - i,
    {
        if ts[i] == t {
            return true;
        }
        i = i + 1;
    }
    false
}

impl<'a> HookTable<'a> {
    pub fn new(package: &'a Package) -> (r: Self)
        ensures
            r.package == package,
            r.init_hook is None,
            r.health_check_hook is None,
            r.reconfigure_hook is None,
            r.run_hook is None,
    {
        HookTable {
            package: package,
            init_hook: None,
            health_check_hook: None,
            reconfigure_hook: None,
            run_hook: None,
        }
    }

    /// Fills each slot whose template exists. `hooks_dir_is_dir` says whether
    /// the package's `hooks/` is a directory, and `present` lists the hook
    /// types whose template file is in it; without the directory every slot
    /// stays empty.
    pub fn load_hooks(&mut self, hooks_dir_is_dir: bool, present: &Vec<HookType>)
        ensures
            final(self).package == old(self).package,
            !hooks_dir_is_dir ==> {
                &&& final(self).init_hook == old(self).init_hook
                &&& final(self).health_check_hook == old(self).health_check_hook
                &&& final(self).reconfigure_hook == old(self).reconfigure_hook
                &&& final(self).run_hook == old(self).run_hook
            },
            hooks_dir_is_dir ==> slot_loaded(
                final(self).init_hook,
                *final(self).package,
                HookType::Init,
                hooks_dir_is_dir && present@.contains(HookType::Init),
            ),
            hooks_dir_is_dir ==> slot_loaded(
                final(self).health_check_hook,
                *final(self).package,
                HookType::HealthCheck,
                hooks_dir_is_dir && present@.contains(HookType::HealthCheck),
            ),
            hooks_dir_is_dir ==> slot_loaded(
                final(self).reconfigure_hook,
                *final(self).package,
                HookType::Reconfigure,
                hooks_dir_is_dir && present@.contains(HookType::Reconfigure),
            ),
            hooks_dir_is_dir ==> slot_loaded(
                final(self).run_hook,
                *final(self).package,
                HookType::Run,
                hooks_dir_is_dir && present@.contains(HookType::Run),
            ),
    {
        if hooks_dir_is_dir {
            self.init_hook = self.load_hook(HookType::Init, holds_type(present, HookType::Init));
            self.reconfigure_hook = self.load_hook(
                HookType::Reconfigure,
                holds_type(present, HookType::Reconfigure),
            );
            self.health_check_hook = self.load_hook(
                HookType::HealthCheck,
                holds_type(present, HookType::HealthCheck),
            );
            self.run_hook = self.load_hook(HookType::Run, holds_type(present, HookType::Run));
        }
    }

    /// The hook of type `hook_type`, where its template exists.
    fn load_hook(&self, hook_type: HookType, template_exists: bool) -> (r: Option<Hook>)
        ensures
            slot_loaded(r, *self.package, hook_type, template_exists),
    {
        if template_exists {
            let template = self.package.hook_template_path(&hook_type);
            let concrete = self.package.hook_path(&hook_type);
            Some(Hook::new(hook_type, template, concrete))
        } else {
            None
        }
    }
}

impl Package {
    /// Where this package keeps the template of a hook.
    pub fn hook_template_path(&self, hook_type: &HookType) -> (r: String)
        ensures
            r@ == hook_template_text(*self, *hook_type),
    {
        proof {
            reveal_strlit("hooks");
        }
        join(self.join_path("hooks"), hook_type.file_name())
    }

    /// Where this package's service keeps a compiled hook.
    pub fn hook_path(&self, hook_type: &HookType) -> (r: String)
        ensures
            r@ == hook_path_text(*self, *hook_type),
    {
        join(self.srvc_join_path("hooks"), hook_type.file_name())
    }

    /// The hooks of this package, loaded as `HookTable::load_hooks` describes.
    pub fn hooks(&self, hooks_dir_is_dir: bool, present: &Vec<HookType>) -> (r: HookTable)
        ensures
            r.package == self,
            slot_loaded(
                r.init_hook,
                *self,
                HookType::Init,
                hooks_dir_is_dir && present@.contains(HookType::Init),
            ),
            slot_loaded(
                r.health_check_hook,
                *self,
                HookType::HealthCheck,
                hooks_dir_is_dir && present@.contains(HookType::HealthCheck),
            ),
            slot_loaded(
                r.reconfigure_hook,
                *self,
                HookType::Reconfigure,
                hooks_dir_is_dir && present@.contains(HookType::Reconfigure),
            ),
            slot_loaded(
                r.run_hook,
                *self,
                HookType::Run,
                hooks_dir_is_dir && present@.contains(HookType::Run),
            ),
    {
        let mut hooks = HookTable::new(self);
        hooks.load_hooks(hooks_dir_is_dir, present);
        hooks
    }
}

} // verus!

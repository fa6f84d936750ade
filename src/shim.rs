use vstd::prelude::*;

use crate::config::{directory_home, JvmsConfiguration};
use crate::error::{ConfigurationError, ErrorView, JvmsError, Problem};
use crate::path::{absolutize, JvmsPath, Part, PathView};

verus! {

/// A Java tool that the installed binary stands in for when it runs under
/// that tool's name.
#[derive(Debug, Clone, Copy, PartialEq, Eq)]
pub struct Shim {
    pub name: &'static str,
}

/// How the binary was invoked: as the manager itself, or as one of the tools.
#[derive(Debug, Clone, Copy, PartialEq, Eq)]
pub enum InvocationMode {
    Primary,
    Shim(Shim),
}

/// What a tool invocation starts: `program`, with the toolchain's home
/// directory handed to it in the environment and `args` as its arguments.
#[derive(Debug, Clone, PartialEq, Eq)]
pub struct ShimLaunch {
    pub program: JvmsPath,
    pub java_home: JvmsPath,
    pub args: Vec<String>,
}

/// The names of the tools, in catalog order.
pub open spec fn shim_names() -> Seq<Seq<char>> {
    seq!["jar"@, "java"@, "javac"@, "javadoc"@, "javah"@, "javap"@, "javaw"@]
}

pub open spec fn names_of(s: Seq<Shim>) -> Seq<Seq<char>> {
    s.map_values(|x: Shim| x.name@)
}

/// The tool `tool` inside the toolchain whose home is `home`: `<home>/bin/<tool>`.
pub open spec fn program_for(home: PathView, tool: Seq<char>) -> PathView {
    PathView {
        absolute: home.absolute,
        parts: home.parts.push(Part::Normal("bin"@)).push(Part::Normal(tool)),
    }
}

/// The arguments after the invocation's own name.
pub open spec fn forwarded(argv: Seq<String>) -> Seq<String> {
    if argv.len() == 0 {
        argv
    } else {
        argv.drop_first()
    }
}

impl Shim {
    /// The catalog of tools.
    pub fn get_shims() -> (r: Vec<Shim>)
        ensures
            names_of(r@) == shim_names(),
    {
        let r = vec![
            Shim { name: "jar" },
            Shim { name: "java" },
            Shim { name: "javac" },
            Shim { name: "javadoc" },
            Shim { name: "javah" },
            Shim { name: "javap" },
            Shim { name: "javaw" },
        ];
        assert(names_of(r@) =~= shim_names());
        r
    }

    /// The tool whose name is `file_stem` (the invoked file's name without
    /// extension), if it is in the catalog.
    pub fn find_shim(file_stem: &str) -> (r: Option<Shim>)
        ensures
            match r {
                Some(s) => s.name@ == file_stem@ && shim_names().contains(file_stem@),
                None => !shim_names().contains(file_stem@),
            },
    {
        let key = file_stem.to_owned();
        let shims = Shim::get_shims();
        let mut i: usize = 0;
        while i < shims.len()
            invariant
                0 <= i <= shims@.len(),
                key@ == file_stem@,
                names_of(shims@) == shim_names(),
                forall|j: int| 0 <= j < i ==> shim_names()[j] != key@,
            decreases shims@.len() - i,
        {
            let name = shims[i].name.to_owned();
            if name.eq(&key) {
                assert(shim_names()[i as int] == file_stem@);
                return Some(shims[i]);
            }
            i = i + 1;
        }
        proof {
            if shim_names().contains(file_stem@) {
                let j = choose|j: int| 0 <= j < shim_names().len() && shim_names()[j] == file_stem@;
                assert(shim_names()[j] != key@);
            }
        }
        None
    }

    /// The mode the binary runs in, chosen once from its invoked file stem.
    pub fn invocation_mode(file_stem: &str) -> (r: InvocationMode)
        ensures
            match r {
                InvocationMode::Shim(s) => s.name@ == file_stem@ && shim_names().contains(
                    file_stem@,
                ),
                InvocationMode::Primary => !shim_names().contains(file_stem@),
            },
    {
        match Shim::find_shim(file_stem) {
            Some(s) => InvocationMode::Shim(s),
            None => InvocationMode::Primary,
        }
    }

    /// What running this tool in `current_dir` starts: the tool inside the
    /// toolchain of the override that applies there, else inside the
    /// default toolchain, with every argument after the invocation's own name
    /// passed on in order. Fails when neither gives a toolchain.
    pub fn plan_execution(
        &self,
        config: &JvmsConfiguration,
        current_dir: &JvmsPath,
        invocation_args: &Vec<String>,
    ) -> (r: Result<ShimLaunch, JvmsError>)
        requires
            config.wf(),
        ensures
            match directory_home(config@, absolutize(current_dir@, current_dir@)) {
                Some(h) => r matches Ok(l) && l.java_home@ == h && l.program@ == program_for(
                    h,
                    self.name@,
                ) && l.args@ == forwarded(invocation_args@),
                None => r matches Err(e) && e@ == ErrorView::InvalidConfiguration(
                    Problem::NoToolchainForDirectory(current_dir@),
                ),
            },
    {
        let toolchain = match config.get_toolchain_for_directory(current_dir, current_dir) {
            Some(t) => t,
            None => {
                return Err(
                    JvmsError::InvalidConfiguration(
                        ConfigurationError::NoToolchainForDirectory(current_dir.duplicate()),
                    ),
                );
            },
        };
        let bin = toolchain.java_home.child("bin".to_owned());
        let program = bin.child(self.name.to_owned());
        let mut args: Vec<String> = Vec::new();
        let n = invocation_args.len();
        if n == 0 {
            assert(args@ =~= forwarded(invocation_args@));
        } else {
            let mut i: usize = 1;
            while i < n
                invariant
                    1 <= i <= n,
                    n == invocation_args@.len(),
                    args@ == invocation_args@.subrange(1, i as int),
                decreases n - i,
            {
                args.push(invocation_args[i].clone());
                assert(args@ =~= invocation_args@.subrange(1, i + 1));
                i = i + 1;
            }
            assert(invocation_args@.subrange(1, n as int) =~= invocation_args@.drop_first());
        }
        Ok(ShimLaunch { program, java_home: toolchain.java_home.duplicate(), args })
    }
}

} // verus!

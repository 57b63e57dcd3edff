//! What a caller asks of the shader compiler, as plain data: the session
//! to open and the targets to compile for.

use crate::codes::CompileTarget;
use crate::codes::MatrixLayoutMode;
use crate::codes::ProfileId;
use crate::reflect::Type;
use vstd::prelude::*;

verus! {

/// A target to compile for.
#[derive(Clone, Copy, Debug, PartialEq, Eq, Structural)]
pub struct TargetDesc {
    pub format: CompileTarget,
    pub profile: ProfileId,
}

impl Default for TargetDesc {
    /// A target with no format and no known profile.
    fn default() -> (desc: Self)
        ensures
            desc == (TargetDesc { format: CompileTarget(0), profile: ProfileId(0) }),
    {
        TargetDesc { format: CompileTarget(0), profile: ProfileId(0) }
    }
}

impl TargetDesc {
    /// The same target, with the given format.
    pub fn format(self, format: CompileTarget) -> (desc: Self)
        ensures
            desc == (TargetDesc { format, ..self }),
    {
        TargetDesc { format, profile: self.profile }
    }

    /// The same target, with the given profile.
    pub fn profile(self, profile: ProfileId) -> (desc: Self)
        ensures
            desc == (TargetDesc { profile, ..self }),
    {
        TargetDesc { format: self.format, profile }
    }
}

/// A session to open: its targets and its settings.
pub struct SessionDesc<'a> {
    pub matrix_layout_mode: MatrixLayoutMode,
    pub targets: &'a [TargetDesc],
    pub skip_spirv_validation: bool,
}

impl<'a> Default for SessionDesc<'a> {
    /// A session without targets, with the default matrix layout, that
    /// validates what it emits.
    fn default() -> (desc: Self)
        ensures
            desc.matrix_layout_mode == MatrixLayoutMode(0),
            desc.targets@.len() == 0,
            !desc.skip_spirv_validation,
    {
        SessionDesc::new()
    }
}

impl<'a> SessionDesc<'a> {
    /// A session without targets, with the default matrix layout, that
    /// validates what it emits.
    pub fn new() -> (desc: Self)
        ensures
            desc.matrix_layout_mode == MatrixLayoutMode(0),
            desc.targets@.len() == 0,
            !desc.skip_spirv_validation,
    {
        let none: &'a [TargetDesc] = &[];
        SessionDesc {
            matrix_layout_mode: MatrixLayoutMode(0),
            targets: none,
            skip_spirv_validation: false,
        }
    }

    /// The same session, with the given default matrix layout.
    pub fn matrix_layout_mode(self, mode: MatrixLayoutMode) -> (desc: Self)
        ensures
            desc == (SessionDesc { matrix_layout_mode: mode, ..self }),
    {
        SessionDesc {
            matrix_layout_mode: mode,
            targets: self.targets,
            skip_spirv_validation: self.skip_spirv_validation,
        }
    }

    /// The same session, with the given targets.
    pub fn targets(self, targets: &'a [TargetDesc]) -> (desc: Self)
        ensures
            desc == (SessionDesc { targets, ..self }),
    {
        SessionDesc {
            matrix_layout_mode: self.matrix_layout_mode,
            targets,
            skip_spirv_validation: self.skip_spirv_validation,
        }
    }

    /// The same session, which skips the validation of what it emits if
    /// `yes` is set.
    pub fn skip_spirv_validation(self, yes: bool) -> (desc: Self)
        ensures
            desc == (SessionDesc { skip_spirv_validation: yes, ..self }),
    {
        SessionDesc {
            matrix_layout_mode: self.matrix_layout_mode,
            targets: self.targets,
            skip_spirv_validation: yes,
        }
    }
}

/// An argument that specializes a generic: a type, or an expression in
/// source form.
#[derive(Clone, Copy)]
pub enum SpecializeArgument<'a> {
    Type(&'a Type),
    Expr(&'a str),
}

} // verus!

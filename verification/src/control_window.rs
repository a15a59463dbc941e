//! The window class of the control, and the making of its windows.

use crate::control::{
    at_least_one, create_plan, create_plan_of, CreatePlan, CHILD_STYLE, CREATE_INITIALIZE,
    CREATE_VISIBLE, WS_VISIBLE,
};
use vstd::prelude::*;

verus! {

pub const DLL_PROCESS_DETACH: u32 = 0;

pub const DLL_PROCESS_ATTACH: u32 = 1;

/// What the system says of a class that is there already.
pub const ERROR_CLASS_ALREADY_EXISTS: u32 = 1410;

/// What is done with the class of the control.
#[derive(Clone, Copy, PartialEq, Eq, Structural, Debug)]
pub enum ClassStep {
    /// It is registered for a module.
    Register(i64),
    /// It is taken back for a module.
    Unregister(i64),
    Nothing,
}

/// The module for which the class was registered last; zero where it was for none.
#[derive(Clone, Copy, PartialEq, Eq, Structural, Debug)]
pub struct ClassOwner {
    pub instance: i64,
}

impl ClassOwner {
    /// No module yet.
    pub fn new() -> (r: ClassOwner)
        ensures
            r.instance == 0,
    {
        ClassOwner { instance: 0 }
    }

    /// What is done where the library is loaded or goes, and the module that is kept.
    pub open spec fn told(self, instance: i64, reason: u32) -> (ClassOwner, ClassStep) {
        if reason == DLL_PROCESS_ATTACH {
            (ClassOwner { instance }, ClassStep::Register(instance))
        } else if reason == DLL_PROCESS_DETACH && self.instance != 0 {
            (self, ClassStep::Unregister(self.instance))
        } else {
            (self, ClassStep::Nothing)
        }
    }

    /// What is done where the library is loaded or goes: the class comes with it, and
    /// goes with it where it was registered.
    pub fn dll_main(&mut self, instance: i64, reason: u32) -> (r: ClassStep)
        ensures
            (*final(self), r) == old(self).told(instance, reason),
    {
        if reason == DLL_PROCESS_ATTACH {
            self.instance = instance;
            return ClassStep::Register(instance);
        }
        if reason == DLL_PROCESS_DETACH && self.instance != 0 {
            return ClassStep::Unregister(self.instance);
        }
        ClassStep::Nothing
    }

    /// The module for which the class is registered by hand: the one that was named, or
    /// `module`, that of the library, where none was.
    pub fn register_classes(&mut self, instance: i64, module: i64) -> (r: i64)
        ensures
            r == (if instance == 0 {
                module
            } else {
                instance
            }),
            final(self).instance == r,
    {
        self.instance = if instance == 0 {
            module
        } else {
            instance
        };
        self.instance
    }

    /// The module for which the class is taken back by hand: the one that was named, or
    /// the one that it was registered for. `None` where there is neither.
    pub fn unregister_classes(&self, instance: i64) -> (r: Option<i64>)
        ensures
            r == (if instance != 0 {
                Some(instance)
            } else if self.instance != 0 {
                Some(self.instance)
            } else {
                None
            }),
    {
        if instance != 0 {
            Some(instance)
        } else if self.instance != 0 {
            Some(self.instance)
        } else {
            None
        }
    }

    /// The module to which a window belongs: the one that the class was registered for,
    /// or `module`, that of the library.
    pub fn window_owner(&self, module: i64) -> (r: i64)
        ensures
            r == (if self.instance == 0 {
                module
            } else {
                self.instance
            }),
    {
        if self.instance == 0 {
            module
        } else {
            self.instance
        }
    }
}

/// Whether the class is there after it was registered: the system gave it a number, or
/// said that it was there already.
pub fn class_is_registered(atom: u16, last_error: u32) -> (r: bool)
    ensures
        r == (atom != 0 || last_error == ERROR_CLASS_ALREADY_EXISTS),
{
    atom != 0 || last_error == ERROR_CLASS_ALREADY_EXISTS
}

/// What the system is answered after a step with the class: loading fails where the
/// class could not be registered.
pub fn dll_main_result(step: ClassStep, registered: bool) -> (r: bool)
    ensures
        r == (step is Register ==> registered),
{
    match step {
        ClassStep::Register(_) => registered,
        _ => true,
    }
}

/// What a program asks for where it makes a control.
#[derive(Clone, Copy, PartialEq, Eq, Structural, Debug)]
pub struct CreateParams {
    pub parent: i64,
    pub x: i32,
    pub y: i32,
    pub width: i32,
    pub height: i32,
    pub ex_style: u32,
    pub style: u32,
    pub control_id: i64,
    pub flags: u32,
}

/// How the window of a control is made.
#[derive(Clone, Copy, PartialEq, Eq, Structural)]
pub struct WindowPlan {
    pub parent: i64,
    pub x: i32,
    pub y: i32,
    pub width: i32,
    pub height: i32,
    pub ex_style: u32,
    pub control_id: i64,
    pub plan: CreatePlan,
}

/// How the window of a control is made. It is refused without a window round it, and
/// without the class; it is at least one wide and high.
pub fn create_control(params: CreateParams, registered: bool) -> (r: Option<WindowPlan>)
    ensures
        r is Some <==> params.parent != 0 && registered,
        r matches Some(w) ==> {
            &&& w.parent == params.parent
            &&& w.x == params.x
            &&& w.y == params.y
            &&& w.width == at_least_one(params.width)
            &&& w.height == at_least_one(params.height)
            &&& w.ex_style == params.ex_style
            &&& w.control_id == params.control_id
            &&& w.plan == create_plan_of(params.style, params.flags)
        },
{
    if params.parent == 0 || !registered {
        return None;
    }
    let width: i32 = if params.width < 1 {
        1
    } else {
        params.width
    };
    let height: i32 = if params.height < 1 {
        1
    } else {
        params.height
    };
    Some(
        WindowPlan {
            parent: params.parent,
            x: params.x,
            y: params.y,
            width,
            height,
            ex_style: params.ex_style,
            control_id: params.control_id,
            plan: create_plan(params.style, params.flags),
        },
    )
}

/// How the window of a control is made as a plain child: shown, and started as it is
/// made.
pub fn create_as_child_control(
    parent: i64,
    x: i32,
    y: i32,
    width: i32,
    height: i32,
    registered: bool,
) -> (r: Option<WindowPlan>)
    ensures
        r is Some <==> parent != 0 && registered,
        r matches Some(w) ==> {
            &&& w.parent == parent
            &&& w.x == x
            &&& w.y == y
            &&& w.width == at_least_one(width)
            &&& w.height == at_least_one(height)
            &&& w.ex_style == 0
            &&& w.control_id == 0
            &&& w.plan == create_plan_of(0, CREATE_VISIBLE | CREATE_INITIALIZE)
        },
{
    create_control(
        CreateParams {
            parent,
            x,
            y,
            width,
            height,
            ex_style: 0,
            style: 0,
            control_id: 0,
            flags: CREATE_VISIBLE | CREATE_INITIALIZE,
        },
        registered,
    )
}

/// The style of a window that stands alone: it has a frame and a title.
pub const STANDALONE_STYLE: u32 = 0x00cf_0000;

/// Stands for a place that the system chooses.
pub const CW_USEDEFAULT: i32 = -2147483648;

/// The title of a window that stands alone, which is also its document.
pub const STANDALONE_TITLE: &'static str = "Velotype.dll";

/// How a control is made as a window that stands alone, with its title: shown, and
/// started as it is made. It is refused without the class.
pub fn create_standalone_window(registered: bool) -> (r: Option<(WindowPlan, &'static str)>)
    ensures
        r is Some <==> registered,
        r matches Some((w, title)) ==> {
            &&& w.parent == 0
            &&& w.x == CW_USEDEFAULT
            &&& w.y == CW_USEDEFAULT
            &&& w.width == 760
            &&& w.height == 520
            &&& w.ex_style == 0
            &&& w.control_id == 0
            &&& w.plan == create_plan_of(STANDALONE_STYLE, CREATE_VISIBLE | CREATE_INITIALIZE)
            &&& title@ == STANDALONE_TITLE@
        },
{
    if !registered {
        return None;
    }
    let window = WindowPlan {
        parent: 0,
        x: CW_USEDEFAULT,
        y: CW_USEDEFAULT,
        width: 760,
        height: 520,
        ex_style: 0,
        control_id: 0,
        plan: create_plan(STANDALONE_STYLE, CREATE_VISIBLE | CREATE_INITIALIZE),
    };
    Some((window, STANDALONE_TITLE))
}

/// A control that is made as a plain child is shown and started, and neither takes the
/// focus nor lets itself be resized.
pub proof fn law_plain_child_is_shown_and_started()
    ensures
        ({
            let plan = create_plan_of(0, CREATE_VISIBLE | CREATE_INITIALIZE);
            &&& plan.style == CHILD_STYLE | WS_VISIBLE
            &&& plan.initialize
            &&& !plan.focus
            &&& !plan.resizable
        }),
{
    assert((1u32 | 2u32) & 1u32 == 1u32 && (1u32 | 2u32) & 2u32 == 2u32 && (1u32 | 2u32) & 4u32
        == 0u32 && (1u32 | 2u32) & 8u32 == 0u32) by (bit_vector);
}

/// The class that was registered when the library was loaded goes when it goes.
pub proof fn law_class_goes_with_the_library(owner: ClassOwner, instance: i64)
    requires
        instance != 0,
    ensures
        owner.told(instance, DLL_PROCESS_ATTACH).0.told(instance, DLL_PROCESS_DETACH).1
            == ClassStep::Unregister(instance),
{
}

} // verus!

//! Classification of the functions found in a bitcode module.
//!
//! The foreign bitcode reader hands the pipeline one [`FunctionInfo`] per
//! defined function; this module decides which of them are accelerator
//! entry points, going by the numeric calling-convention tag that the
//! bitcode producer attaches.

use vstd::prelude::*;

use crate::error::CompileError;

verus! {

/// Calling-convention tag that marks a kernel entry point.
///
/// The two numeric tags are a contract of the bitcode format producer in
/// use; see the LLVM calling-convention list (PTX_Kernel = 71,
/// PTX_Device = 72).
pub const PTX_KERNEL_CONV: u32 = 71;

/// Calling-convention tag that marks a device-callable helper function.
pub const PTX_DEVICE_CONV: u32 = 72;

/// What a function's calling-convention tag says about its role on the
/// accelerator.
#[derive(Debug, Clone, Copy, PartialEq, Eq, Structural)]
pub enum FunctionRole {
    Kernel,
    DeviceFunction,
    Other,
}

/// One defined function of a bitcode module: its exported symbol name and
/// its raw calling-convention tag.
#[derive(Debug)]
pub struct FunctionInfo {
    pub name: String,
    pub call_conv: u32,
}

/// The role encoded by a raw calling-convention tag.
pub open spec fn spec_role_of(conv: u32) -> FunctionRole {
    if conv == PTX_KERNEL_CONV {
        FunctionRole::Kernel
    } else if conv == PTX_DEVICE_CONV {
        FunctionRole::DeviceFunction
    } else {
        FunctionRole::Other
    }
}

/// Whether a tag marks an accelerator entry point (kernel or
/// device-callable function).
pub open spec fn is_entry_conv(conv: u32) -> bool {
    conv == PTX_KERNEL_CONV || conv == PTX_DEVICE_CONV
}

impl FunctionInfo {
    pub fn new(name: String, call_conv: u32) -> (r: FunctionInfo)
        ensures
            r.name == name,
            r.call_conv == call_conv,
    {
        FunctionInfo { name, call_conv }
    }

    /// The role this function plays on the accelerator.
    pub fn role(&self) -> (r: FunctionRole)
        ensures
            r == spec_role_of(self.call_conv),
    {
        if self.call_conv == PTX_KERNEL_CONV {
            FunctionRole::Kernel
        } else if self.call_conv == PTX_DEVICE_CONV {
            FunctionRole::DeviceFunction
        } else {
            FunctionRole::Other
        }
    }

    pub fn is_ptx_kernel(&self) -> (b: bool)
        ensures
            b == (self.call_conv == PTX_KERNEL_CONV),
    {
        self.call_conv == PTX_KERNEL_CONV
    }

    pub fn is_ptx_device_func(&self) -> (b: bool)
        ensures
            b == (self.call_conv == PTX_DEVICE_CONV),
    {
        self.call_conv == PTX_DEVICE_CONV
    }
}

/// The names of the entry points among `funcs`, in order of appearance.
pub open spec fn entry_names(funcs: Seq<FunctionInfo>) -> Seq<Seq<char>>
    decreases funcs.len(),
{
    if funcs.len() == 0 {
        Seq::empty()
    } else {
        let rest = entry_names(funcs.drop_last());
        if is_entry_conv(funcs.last().call_conv) {
            rest.push(funcs.last().name@)
        } else {
            rest
        }
    }
}

/// The exported names of the accelerator entry points of a module.
///
/// Succeeds exactly when at least one function is tagged Kernel or
/// DeviceFunction; an empty result set means nothing in the final assembly
/// would be externally reachable, which is always a build error.
pub fn get_ptx_functions(funcs: &Vec<FunctionInfo>) -> (r: Result<Vec<String>, CompileError>)
    ensures
        r matches Ok(names) ==> names.deep_view() == entry_names(funcs@) && entry_names(
            funcs@,
        ).len() > 0,
        r is Err ==> (r matches Err(e) && e is NoKernelFound) && entry_names(funcs@).len() == 0,
        r is Ok <==> entry_names(funcs@).len() > 0,
{
    let mut ptx: Vec<String> = Vec::new();
    let n = funcs.len();
    for i in 0..n
        invariant
            n == funcs.len(),
            ptx.deep_view() == entry_names(funcs@.take(i as int)),
    {
        proof {
            assert(funcs@.take(i + 1).drop_last() =~= funcs@.take(i as int));
            assert(funcs@.take(i + 1).last() == funcs@[i as int]);
        }
        if funcs[i].is_ptx_kernel() || funcs[i].is_ptx_device_func() {
            ptx.push(funcs[i].name.clone());
        }
        proof {
            assert(ptx.deep_view() =~= entry_names(funcs@.take(i + 1)));
        }
    }
    proof {
        assert(funcs@.take(n as int) =~= funcs@);
    }
    if ptx.len() == 0 {
        Err(CompileError::NoKernelFound)
    } else {
        Ok(ptx)
    }
}

/// Empty-result failure: a module in which no function is tagged Kernel or
/// DeviceFunction has no entry points, so inspecting it must fail.
pub proof fn lemma_no_entry_points(funcs: Seq<FunctionInfo>)
    requires
        forall|i: int| 0 <= i < funcs.len() ==> !is_entry_conv(funcs[i].call_conv),
    ensures
        entry_names(funcs).len() == 0,
    decreases funcs.len(),
{
    if funcs.len() > 0 {
        lemma_no_entry_points(funcs.drop_last());
    }
}

/// Entry-point discovery: in a module whose only entry point is the
/// function at position `k`, the discovered set is exactly that function's
/// name.
pub proof fn lemma_single_entry_point(funcs: Seq<FunctionInfo>, k: int)
    requires
        0 <= k < funcs.len(),
        is_entry_conv(funcs[k].call_conv),
        forall|i: int| 0 <= i < funcs.len() && i != k ==> !is_entry_conv(funcs[i].call_conv),
    ensures
        entry_names(funcs) =~= seq![funcs[k].name@],
    decreases funcs.len(),
{
    if k == funcs.len() - 1 {
        lemma_no_entry_points(funcs.drop_last());
    } else {
        lemma_single_entry_point(funcs.drop_last(), k);
    }
}

} // verus!

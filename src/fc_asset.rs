//! A function-call asset: a sequence of method calls that each claim makes,
//! in order. Its value cannot be refunded once the calls were made.
use vstd::prelude::*;

use crate::delivery::{call_step, Action, CallView, Delivery, FunctionCall, Step, StepView};
use crate::gas::{GAS_FOR_FC_CLAIM_LOGIC, MIN_BASE_GAS_FOR_ONE_CCC};
use crate::{AccountId, Balance, Gas};

verus! {

/// One method call of a function-call asset.
#[derive(Debug, Clone)]
pub struct MethodData {
    /// Contract that is called.
    pub receiver_id: AccountId,
    pub method_name: String,
    /// The arguments, as a JSON object.
    pub args: String,
    /// Value attached to the call.
    pub attached_deposit: Balance,
    /// Gas attached to the call.
    pub attached_gas: Gas,
    /// Whether the claimer may supply the arguments in place of `args`.
    pub user_args_allowed: bool,
}

/// Arguments that the claimer supplies, one entry per method, by position.
pub type AssetSpecificFCArgs = Option<Vec<Option<String>>>;

/// Gas of one method: what it is given, and the overhead of the call.
pub open spec fn method_gas(m: MethodData) -> int {
    m.attached_gas + MIN_BASE_GAS_FOR_ONE_CCC
}

pub open spec fn methods_gas(ms: Seq<MethodData>) -> int
    decreases ms.len(),
{
    if ms.len() == 0 {
        0
    } else {
        methods_gas(ms.drop_last()) + method_gas(ms.last())
    }
}

/// Gas of one claim of a function-call asset with these methods.
pub open spec fn fc_claim_gas(ms: Seq<MethodData>) -> int {
    GAS_FOR_FC_CLAIM_LOGIC + methods_gas(ms)
}

/// Value that the methods attach, all together.
pub open spec fn methods_deposit(ms: Seq<MethodData>) -> int
    decreases ms.len(),
{
    if ms.len() == 0 {
        0
    } else {
        methods_deposit(ms.drop_last()) + ms.last().attached_deposit
    }
}

/// The arguments of the `i`th method: the claimer's, where the method allows
/// them and they were given, and else its own.
pub open spec fn call_args_for(m: MethodData, user: AssetSpecificFCArgs, i: int) -> Seq<char> {
    match user {
        Some(v) => if m.user_args_allowed && i < v@.len() && v@[i] is Some {
            v@[i]->Some_0@
        } else {
            m.args@
        },
        None => m.args@,
    }
}

/// Each method, in order, as a step of its own on its receiver.
pub open spec fn fc_delivery(ms: Seq<MethodData>, user: AssetSpecificFCArgs) -> Seq<StepView> {
    Seq::new(
        ms.len(),
        |i: int|
            call_step(
                ms[i].receiver_id@,
                CallView {
                    method_name: ms[i].method_name@,
                    args: call_args_for(ms[i], user, i),
                    deposit: ms[i].attached_deposit,
                    static_gas: ms[i].attached_gas,
                    gas_weight: 0,
                },
            ),
    )
}

pub proof fn lemma_prefix_sums(ms: Seq<MethodData>, k: int)
    requires
        0 <= k <= ms.len(),
    ensures
        methods_gas(ms.take(k)) <= methods_gas(ms),
        methods_deposit(ms.take(k)) <= methods_deposit(ms),
    decreases ms.len(),
{
    if k < ms.len() {
        assert(ms.drop_last().take(k) =~= ms.take(k));
        lemma_prefix_sums(ms.drop_last(), k);
    } else {
        assert(ms.take(k) =~= ms);
    }
}

impl MethodData {
    /// An equal copy of this method.
    pub fn copy(&self) -> (r: Self)
        ensures
            r == *self,
    {
        MethodData {
            receiver_id: self.receiver_id.clone(),
            method_name: self.method_name.clone(),
            args: self.args.clone(),
            attached_deposit: self.attached_deposit,
            attached_gas: self.attached_gas,
            user_args_allowed: self.user_args_allowed,
        }
    }
}

/// An equal copy of a sequence of methods.
pub fn copy_methods(ms: &Vec<MethodData>) -> (r: Vec<MethodData>)
    ensures
        r@ == ms@,
{
    let mut r: Vec<MethodData> = Vec::new();
    let mut i: usize = 0;
    while i < ms.len()
        invariant
            i <= ms@.len(),
            r@ == ms@.take(i as int),
        decreases ms@.len() - i,
    {
        r.push(ms[i].copy());
        i = i + 1;
        assert(r@ =~= ms@.take(i as int));
    }
    assert(ms@.take(i as int) =~= ms@);
    r
}

#[derive(Debug, Clone)]
pub struct InternalFCData {
    pub methods: Vec<MethodData>,
}

impl InternalFCData {
    /// A copy of this asset, with the same methods.
    pub fn copy(&self) -> (r: Self)
        ensures
            r.methods@ == self.methods@,
    {
        InternalFCData { methods: copy_methods(&self.methods) }
    }

    /// The gas and the value of all methods together fit their types.
    pub open spec fn wf(&self) -> bool {
        fc_claim_gas(self.methods@) <= u64::MAX && methods_deposit(self.methods@) <= u128::MAX
    }

    /// Gas of one claim of this asset.
    pub fn get_required_gas_for_claim(&self) -> (r: Gas)
        requires
            self.wf(),
        ensures
            r == fc_claim_gas(self.methods@),
    {
        let mut total: Gas = GAS_FOR_FC_CLAIM_LOGIC;
        let mut i: usize = 0;
        while i < self.methods.len()
            invariant
                i <= self.methods@.len(),
                self.wf(),
                total == GAS_FOR_FC_CLAIM_LOGIC + methods_gas(self.methods@.take(i as int)),
            decreases self.methods@.len() - i,
        {
            proof {
                lemma_prefix_sums(self.methods@, i + 1);
                assert(self.methods@.take(i + 1).drop_last() =~= self.methods@.take(i as int));
            }
            total = total + self.methods[i].attached_gas + MIN_BASE_GAS_FOR_ONE_CCC;
            i = i + 1;
        }
        assert(self.methods@.take(i as int) =~= self.methods@);
        total
    }

    /// Value owed back to the funder for one use that is never claimed: what
    /// the methods would have attached.
    pub fn get_yocto_refund_amount(&self) -> (r: Balance)
        requires
            self.wf(),
        ensures
            r == methods_deposit(self.methods@),
    {
        let mut total: Balance = 0;
        let mut i: usize = 0;
        while i < self.methods.len()
            invariant
                i <= self.methods@.len(),
                self.wf(),
                total == methods_deposit(self.methods@.take(i as int)),
            decreases self.methods@.len() - i,
        {
            proof {
                lemma_prefix_sums(self.methods@, i + 1);
                assert(self.methods@.take(i + 1).drop_last() =~= self.methods@.take(i as int));
            }
            total = total + self.methods[i].attached_deposit;
            i = i + 1;
        }
        assert(self.methods@.take(i as int) =~= self.methods@);
        total
    }

    /// Asks for each method call, in order, with the claimer's arguments
    /// where the method allows them.
    pub fn claim_fc_asset(&self, fc_args: &AssetSpecificFCArgs) -> (r: Delivery)
        ensures
            r@ == fc_delivery(self.methods@, *fc_args),
    {
        let mut steps: Vec<Step> = Vec::new();
        let mut i: usize = 0;
        while i < self.methods.len()
            invariant
                i <= self.methods@.len(),
                steps@.len() == i,
                forall|j: int| 0 <= j < i ==> (#[trigger] steps@[j])@ == fc_delivery(self.methods@, *fc_args)[j],
            decreases self.methods@.len() - i,
        {
            let m = &self.methods[i];
            let args = match fc_args {
                Some(v) => {
                    if m.user_args_allowed && i < v.len() {
                        match &v[i] {
                            Some(a) => a.clone(),
                            None => m.args.clone(),
                        }
                    } else {
                        m.args.clone()
                    }
                },
                None => m.args.clone(),
            };
            let call = FunctionCall {
                method_name: m.method_name.clone(),
                args,
                deposit: m.attached_deposit,
                static_gas: m.attached_gas,
                gas_weight: 0,
            };
            let actions = vec![Action::FunctionCall(call)];
            let step = Step { receiver_id: m.receiver_id.clone(), actions };
            assert(step@.actions =~= fc_delivery(self.methods@, *fc_args)[i as int].actions);
            steps.push(step);
            i = i + 1;
        }
        let r = Delivery { steps };
        assert(r@ =~= fc_delivery(self.methods@, *fc_args));
        r
    }
}

} // verus!

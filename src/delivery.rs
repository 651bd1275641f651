//! What a claim asks the runtime to do: a chain of steps, each a batch of
//! actions on one receiver, run in order. The runtime turns a `Delivery` into
//! its own asynchronous calls and reports back whether they succeeded.
use vstd::prelude::*;

use crate::{AccountId, Balance, Gas};

verus! {

/// A call of a method on the step's receiver.
#[derive(Debug, Clone)]
pub struct FunctionCall {
    pub method_name: String,
    /// The arguments, as a JSON object.
    pub args: String,
    /// Value attached to the call.
    pub deposit: Balance,
    /// Gas that the call is given whatever else is left.
    pub static_gas: Gas,
    /// Share of the unused gas that the call receives on top.
    pub gas_weight: u64,
}

#[derive(Debug, Clone)]
pub enum Action {
    /// Send this much of the native currency to the receiver.
    Transfer(Balance),
    FunctionCall(FunctionCall),
}

/// A batch of actions on one receiver.
#[derive(Debug, Clone)]
pub struct Step {
    pub receiver_id: AccountId,
    pub actions: Vec<Action>,
}

/// The steps of a delivery, run one after the other. No step: nothing to do.
#[derive(Debug, Clone)]
pub struct Delivery {
    pub steps: Vec<Step>,
}

pub struct CallView {
    pub method_name: Seq<char>,
    pub args: Seq<char>,
    pub deposit: Balance,
    pub static_gas: Gas,
    pub gas_weight: u64,
}

pub enum ActionView {
    Transfer(Balance),
    FunctionCall(CallView),
}

pub struct StepView {
    pub receiver_id: Seq<char>,
    pub actions: Seq<ActionView>,
}

impl View for FunctionCall {
    type V = CallView;

    open spec fn view(&self) -> CallView {
        CallView {
            method_name: self.method_name@,
            args: self.args@,
            deposit: self.deposit,
            static_gas: self.static_gas,
            gas_weight: self.gas_weight,
        }
    }
}

impl View for Action {
    type V = ActionView;

    open spec fn view(&self) -> ActionView {
        match self {
            Action::Transfer(a) => ActionView::Transfer(*a),
            Action::FunctionCall(c) => ActionView::FunctionCall(c@),
        }
    }
}

impl View for Step {
    type V = StepView;

    open spec fn view(&self) -> StepView {
        StepView { receiver_id: self.receiver_id@, actions: self.actions@.map_values(|a: Action| a@) }
    }
}

impl View for Delivery {
    type V = Seq<StepView>;

    open spec fn view(&self) -> Seq<StepView> {
        self.steps@.map_values(|s: Step| s@)
    }
}

/// A step of one call.
pub open spec fn call_step(receiver: Seq<char>, call: CallView) -> StepView {
    StepView { receiver_id: receiver, actions: seq![ActionView::FunctionCall(call)] }
}

impl Delivery {
    /// The delivery that does nothing.
    pub fn nothing() -> (r: Delivery)
        ensures
            r@ == Seq::<StepView>::empty(),
    {
        let r = Delivery { steps: Vec::new() };
        assert(r@ =~= Seq::<StepView>::empty());
        r
    }

    /// A delivery of a single step.
    pub fn one_step(receiver_id: AccountId, actions: Vec<Action>) -> (r: Delivery)
        ensures
            r@ == seq![StepView { receiver_id: receiver_id@, actions: actions@.map_values(|a: Action| a@) }],
    {
        let step = Step { receiver_id, actions };
        let r = Delivery { steps: vec![step] };
        assert(r@ =~= seq![step@]);
        r
    }

    /// A transfer of `amount` of the native currency to `receiver_id`.
    pub fn transfer(receiver_id: AccountId, amount: Balance) -> (r: Delivery)
        ensures
            r@ == seq![StepView { receiver_id: receiver_id@, actions: seq![ActionView::Transfer(amount)] }],
    {
        let actions = vec![Action::Transfer(amount)];
        assert(actions@.map_values(|a: Action| a@) =~= seq![ActionView::Transfer(amount)]);
        Delivery::one_step(receiver_id, actions)
    }
}

} // verus!

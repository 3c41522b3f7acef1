//! Policy-based pre-trade risk evaluation with a global kill-switch.
use vstd::prelude::*;
use vstd::string::*;
use crate::decimal::{abs, push_two_places, two_places_text};

verus! {

/// What a risk evaluation looks at. Amounts are fixed-point units.
#[derive(Debug, Clone)]
pub struct RiskContext {
    pub market_id: String,
    /// Current position (positive long, negative short).
    pub current_position: i64,
    /// Proposed change of the position (buy positive, sell negative).
    pub proposed_size: i64,
    /// Total inventory value in USD.
    pub inventory_value_usd: i64,
}

/// Outcome of a risk evaluation.
#[derive(Debug, Clone, PartialEq)]
pub struct RiskDecision {
    pub allowed: bool,
    /// One message per violated policy, in rule order.
    pub violated_policies: Vec<String>,
}

pub open spec fn texts(v: Seq<String>) -> Seq<Seq<char>> {
    v.map_values(|s: String| s@)
}

impl RiskDecision {
    pub open spec fn messages(self) -> Seq<Seq<char>> {
        texts(self.violated_policies@)
    }

    /// A decision that allows the action.
    pub fn allow() -> (r: RiskDecision)
        ensures
            r.allowed,
            r.violated_policies@.len() == 0,
    {
        RiskDecision { allowed: true, violated_policies: Vec::new() }
    }

    /// A decision that rejects the action for the given reasons.
    pub fn reject(violated_policies: Vec<String>) -> (r: RiskDecision)
        ensures
            !r.allowed,
            r.violated_policies@ == violated_policies@,
    {
        RiskDecision { allowed: false, violated_policies }
    }
}

/// Action to take on a risk outcome.
#[derive(Debug, Clone, Copy, PartialEq, Eq, Structural)]
pub enum RiskAction {
    Allow,
    Reject,
    KillSwitch,
}

/// One declarative risk rule.
#[derive(Debug, Clone)]
pub enum PolicyRule {
    /// `|current + proposed| <= max_size`, for one market or (without id) all.
    PositionLimit { market_id: Option<String>, max_size: i64 },
    /// `inventory_value_usd <= max_value_usd`.
    InventoryLimit { max_value_usd: i64 },
    /// Blocks every action while enabled.
    KillSwitch { enabled: bool },
}

/// A rule set, in evaluation order.
#[derive(Debug, Clone)]
pub struct RiskPolicyConfig {
    pub policies: Vec<PolicyRule>,
}

pub open spec fn rule_applies(rule: PolicyRule, market: Seq<char>) -> bool {
    match rule {
        PolicyRule::PositionLimit { market_id: Some(m), .. } => m@ == market,
        _ => true,
    }
}

pub open spec fn position_limit_text(market_id: Option<String>, new_abs: int, max: int) -> Seq<char> {
    let scope = match market_id {
        Some(m) => " (market: "@ + m@ + ")"@,
        None => Seq::<char>::empty(),
    };
    "PositionLimit"@ + scope + ": new position "@ + two_places_text(new_abs) + " exceeds max "@
        + two_places_text(max)
}

pub open spec fn inventory_limit_text(inventory: int, max: int) -> Seq<char> {
    "InventoryLimit: inventory "@ + two_places_text(inventory) + " USD exceeds max "@
        + two_places_text(max) + " USD"@
}

pub open spec fn kill_switch_rule_text() -> Seq<char> {
    "KillSwitch: enabled in policy"@
}

pub open spec fn kill_switch_active_text() -> Seq<char> {
    "KillSwitch (active)"@
}

/// Whether `rule` is broken by `ctx`, ignoring its market scope.
pub open spec fn rule_violated(rule: PolicyRule, ctx: RiskContext) -> bool {
    match rule {
        PolicyRule::PositionLimit { max_size, .. } =>
            abs(ctx.current_position + ctx.proposed_size) > max_size,
        PolicyRule::InventoryLimit { max_value_usd } => ctx.inventory_value_usd > max_value_usd,
        PolicyRule::KillSwitch { enabled } => enabled,
    }
}

/// The message reported for a violated `rule`.
pub open spec fn rule_message(rule: PolicyRule, ctx: RiskContext) -> Seq<char> {
    match rule {
        PolicyRule::PositionLimit { market_id, max_size } =>
            position_limit_text(market_id, abs(ctx.current_position + ctx.proposed_size) as int, max_size as int),
        PolicyRule::InventoryLimit { max_value_usd } =>
            inventory_limit_text(ctx.inventory_value_usd as int, max_value_usd as int),
        PolicyRule::KillSwitch { .. } => kill_switch_rule_text(),
    }
}

pub open spec fn rule_fires(rule: PolicyRule, ctx: RiskContext) -> bool {
    rule_applies(rule, ctx.market_id@) && rule_violated(rule, ctx)
}

/// Messages of the rules that fire on `ctx`, in rule order.
pub open spec fn violations(rules: Seq<PolicyRule>, ctx: RiskContext) -> Seq<Seq<char>>
    decreases rules.len(),
{
    if rules.len() == 0 {
        Seq::empty()
    } else {
        let prev = violations(rules.drop_last(), ctx);
        if rule_fires(rules.last(), ctx) {
            prev.push(rule_message(rules.last(), ctx))
        } else {
            prev
        }
    }
}

impl PolicyRule {
    /// Name of the rule's kind.
    pub fn name(&self) -> (r: &'static str)
        ensures
            r@ == match *self {
                PolicyRule::PositionLimit { .. } => "PositionLimit"@,
                PolicyRule::InventoryLimit { .. } => "InventoryLimit"@,
                PolicyRule::KillSwitch { .. } => "KillSwitch"@,
            },
    {
        match self {
            PolicyRule::PositionLimit { .. } => "PositionLimit",
            PolicyRule::InventoryLimit { .. } => "InventoryLimit",
            PolicyRule::KillSwitch { .. } => "KillSwitch",
        }
    }

    /// Whether the rule is in scope for `market_id`.
    pub fn applies_to_market(&self, market_id: &String) -> (r: bool)
        ensures
            r == rule_applies(*self, market_id@),
    {
        match self {
            PolicyRule::PositionLimit { market_id: Some(m), .. } => m.eq(market_id),
            _ => true,
        }
    }

    /// The violation message of this rule on `ctx`, if it is broken.
    fn violation(&self, ctx: &RiskContext) -> (r: Option<String>)
        ensures
            r is Some == rule_violated(*self, *ctx),
            r is Some ==> r->0@ == rule_message(*self, *ctx),
    {
        match self {
            PolicyRule::PositionLimit { market_id, max_size } => {
                let new_position = ctx.current_position as i128 + ctx.proposed_size as i128;
                let new_abs: i128 = if new_position < 0 { -new_position } else { new_position };
                if new_abs > *max_size as i128 {
                    let mut s = String::from_str("PositionLimit");
                    match market_id {
                        Some(m) => {
                            s.append(" (market: ");
                            s.append(m.as_str());
                            s.append(")");
                        },
                        None => {},
                    }
                    s.append(": new position ");
                    push_two_places(&mut s, new_abs);
                    s.append(" exceeds max ");
                    push_two_places(&mut s, *max_size as i128);
                    assert(s@ =~= rule_message(*self, *ctx));
                    Some(s)
                } else {
                    None
                }
            },
            PolicyRule::InventoryLimit { max_value_usd } => {
                if ctx.inventory_value_usd > *max_value_usd {
                    let mut s = String::from_str("InventoryLimit: inventory ");
                    push_two_places(&mut s, ctx.inventory_value_usd as i128);
                    s.append(" USD exceeds max ");
                    push_two_places(&mut s, *max_value_usd as i128);
                    s.append(" USD");
                    assert(s@ =~= rule_message(*self, *ctx));
                    Some(s)
                } else {
                    None
                }
            },
            PolicyRule::KillSwitch { enabled } => {
                if *enabled {
                    Some(String::from_str("KillSwitch: enabled in policy"))
                } else {
                    None
                }
            },
        }
    }
}

/// Evaluates contexts against a fixed rule set, behind a kill-switch latch.
pub struct RiskEngine {
    config: RiskPolicyConfig,
    kill_switch_active: bool,
}

impl RiskEngine {
    pub closed spec fn rules(&self) -> Seq<PolicyRule> {
        self.config.policies@
    }

    pub closed spec fn kill_switch(&self) -> bool {
        self.kill_switch_active
    }

    /// A decision as `evaluate` owes it with this rule set and latch.
    pub open spec fn decision_ok(&self, ctx: RiskContext, r: RiskDecision) -> bool {
        if self.kill_switch() {
            !r.allowed && r.messages() == seq![kill_switch_active_text()]
        } else {
            r.messages() == violations(self.rules(), ctx) && r.allowed == (violations(
                self.rules(),
                ctx,
            ).len() == 0)
        }
    }

    /// An engine over `config` with the kill-switch released.
    pub fn new(config: RiskPolicyConfig) -> (r: RiskEngine)
        ensures
            r.rules() == config.policies@,
            !r.kill_switch(),
    {
        RiskEngine { config, kill_switch_active: false }
    }

    /// The rule set.
    pub fn policies(&self) -> (r: &Vec<PolicyRule>)
        ensures
            r@ == self.rules(),
    {
        &self.config.policies
    }

    /// Decides whether the action described by `ctx` is allowed.
    pub fn evaluate(&self, ctx: &RiskContext) -> (r: RiskDecision)
        ensures
            self.decision_ok(*ctx, r),
    {
        if self.kill_switch_active {
            let mut v: Vec<String> = Vec::new();
            v.push(String::from_str("KillSwitch (active)"));
            let r = RiskDecision::reject(v);
            assert(r.messages() =~= seq![kill_switch_active_text()]);
            return r;
        }
        let rules = &self.config.policies;
        let mut out: Vec<String> = Vec::new();
        let mut i: usize = 0;
        while i < rules.len()
            invariant
                i <= rules@.len(),
                rules@ == self.rules(),
                texts(out@) == violations(rules@.subrange(0, i as int), *ctx),
            decreases rules.len() - i,
        {
            let rule = &rules[i];
            assert(rules@.subrange(0, i + 1).drop_last() =~= rules@.subrange(0, i as int));
            assert(rules@.subrange(0, i + 1).last() == rules@[i as int]);
            if rule.applies_to_market(&ctx.market_id) {
                match rule.violation(ctx) {
                    Some(msg) => {
                        out.push(msg);
                        assert(texts(out@) =~= violations(rules@.subrange(0, i + 1), *ctx));
                    },
                    None => {},
                }
            }
            i += 1;
        }
        assert(rules@.subrange(0, rules@.len() as int) =~= rules@);
        if out.len() == 0 {
            let r = RiskDecision::allow();
            assert(r.messages() =~= violations(self.rules(), *ctx));
            r
        } else {
            RiskDecision::reject(out)
        }
    }

    /// Latches the kill-switch: every evaluation rejects until reset.
    pub fn trigger_kill_switch(&mut self)
        ensures
            final(self).kill_switch(),
            final(self).rules() == old(self).rules(),
    {
        self.kill_switch_active = true;
    }

    /// Releases the kill-switch.
    pub fn reset_kill_switch(&mut self)
        ensures
            !final(self).kill_switch(),
            final(self).rules() == old(self).rules(),
    {
        self.kill_switch_active = false;
    }

    pub fn is_kill_switch_active(&self) -> (r: bool)
        ensures
            r == self.kill_switch(),
    {
        self.kill_switch_active
    }
}

/// With the kill-switch released, the rules reject exactly when one of them
/// fires: no violation is reported unless a rule in scope is broken, and every
/// broken rule in scope is reported.
pub proof fn lemma_no_violations_iff_none_fires(rules: Seq<PolicyRule>, ctx: RiskContext)
    ensures
        violations(rules, ctx).len() == 0 <==> forall|i: int|
            0 <= i < rules.len() ==> !rule_fires(#[trigger] rules[i], ctx),
    decreases rules.len(),
{
    if rules.len() > 0 {
        lemma_no_violations_iff_none_fires(rules.drop_last(), ctx);
        if violations(rules, ctx).len() == 0 {
            assert forall|i: int| 0 <= i < rules.len() implies !rule_fires(#[trigger] rules[i], ctx) by {
                if i < rules.len() - 1 {
                    assert(rules.drop_last()[i] == rules[i]);
                }
            }
        } else if forall|i: int| 0 <= i < rules.len() ==> !rule_fires(#[trigger] rules[i], ctx) {
            assert forall|i: int| 0 <= i < rules.drop_last().len() implies !rule_fires(
                #[trigger] rules.drop_last()[i],
                ctx,
            ) by {
                assert(rules.drop_last()[i] == rules[i]);
            }
            assert(!rule_fires(rules[rules.len() - 1], ctx));
        }
    }
}

/// A position limit in scope that the new position would exceed makes the
/// evaluation reject; with every rule in scope unbroken it allows.
pub proof fn lemma_position_limit_rejects(engine: RiskEngine, ctx: RiskContext, i: int, r: RiskDecision)
    requires
        !engine.kill_switch(),
        engine.decision_ok(ctx, r),
        0 <= i < engine.rules().len(),
        engine.rules()[i] is PositionLimit,
        rule_applies(engine.rules()[i], ctx.market_id@),
        abs(ctx.current_position + ctx.proposed_size) > engine.rules()[i]->PositionLimit_max_size,
    ensures
        !r.allowed,
{
    lemma_no_violations_iff_none_fires(engine.rules(), ctx);
    assert(rule_fires(engine.rules()[i], ctx));
}

/// With no rule in scope broken, the evaluation allows.
pub proof fn lemma_unbroken_rules_allow(engine: RiskEngine, ctx: RiskContext, r: RiskDecision)
    requires
        !engine.kill_switch(),
        engine.decision_ok(ctx, r),
        forall|i: int| 0 <= i < engine.rules().len() ==> !rule_fires(#[trigger] engine.rules()[i], ctx),
    ensures
        r.allowed,
        r.violated_policies@.len() == 0,
{
    lemma_no_violations_iff_none_fires(engine.rules(), ctx);
}

/// While the kill-switch is latched every evaluation rejects with the single
/// reason `KillSwitch (active)`, whatever the context.
pub proof fn lemma_kill_switch_dominates(engine: RiskEngine, ctx: RiskContext, r: RiskDecision)
    requires
        engine.kill_switch(),
        engine.decision_ok(ctx, r),
    ensures
        !r.allowed,
        r.messages() == seq![kill_switch_active_text()],
{
}

} // verus!

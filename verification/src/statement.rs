//! Statements: a prepared cursor, its parameters and its lifecycle.
//!
//! A statement decides and keeps state; it never talks to the database. The
//! caller makes each native call and tells the statement how it went.

use crate::buffer::{
    descriptor_widths, member_widths, region_fits, ParamBuffer, ParamsProjection,
};
use crate::json::{json_member, json_object, json_string, push_json_string};
use crate::query::{Query, QueryIterator, QueryState, ResultsProvider};
use crate::text::{
    decimal, join_strings, push_char, push_decimal, push_signed_decimal, signed_decimal, texts,
};
use crate::types::Member;
use crate::values::CodecError;
use vstd::prelude::*;

verus! {

/// Where a statement stands in its life.
#[derive(Clone, Copy, Debug, PartialEq, Eq, Structural)]
pub enum StatementState {
    /// Nothing is prepared yet.
    Unbound,
    /// The text is prepared and the parameters are laid out.
    Prepared,
    /// The result columns are laid out.
    Bound,
    /// The parameters are written and the native execute is under way.
    Executing,
    /// Executed; rows can be fetched.
    Fetching,
    /// Closed for good.
    Closed,
}

impl StatementState {
    /// Name of the state.
    pub open spec fn spec_name(self) -> Seq<char> {
        match self {
            StatementState::Unbound => "Unbound"@,
            StatementState::Prepared => "Prepared"@,
            StatementState::Bound => "Bound"@,
            StatementState::Executing => "Executing"@,
            StatementState::Fetching => "Fetching"@,
            StatementState::Closed => "Closed"@,
        }
    }

    /// Name of the state.
    pub fn name(self) -> (s: &'static str)
        ensures
            s@ == self.spec_name(),
    {
        match self {
            StatementState::Unbound => "Unbound",
            StatementState::Prepared => "Prepared",
            StatementState::Bound => "Bound",
            StatementState::Executing => "Executing",
            StatementState::Fetching => "Fetching",
            StatementState::Closed => "Closed",
        }
    }
}

/// What the native layer reports of a call that failed.
#[derive(Clone, Debug, PartialEq, Eq)]
pub struct Diagnostic {
    /// Diagnostic code, as the native layer gave it.
    pub code: i32,
    /// Diagnostic text, as the native layer gave it.
    pub text: String,
    /// Whether the session or the cursor is lost.
    pub fatal: bool,
}

/// A native failure, with the state in which the statement was left.
#[derive(Clone, Debug, PartialEq, Eq)]
pub struct SqlError {
    pub code: i32,
    pub text: String,
    pub state: StatementState,
}

/// A native failure as a JSON object with the members `code`, `message`
/// and `state`.
pub open spec fn sql_error_json(code: int, text: Seq<char>, state: StatementState) -> Seq<char> {
    json_object(
        seq![
            json_member("code"@, signed_decimal(code)),
            json_member("message"@, json_string(text)),
            json_member("state"@, json_string(state.spec_name())),
        ],
    )
}

/// One member of a JSON object, its value yet to come.
fn member_start(name: &str) -> (s: String)
    ensures
        s@ == json_member(name@, Seq::empty()),
{
    let mut s = String::new();
    push_char(&mut s, '"');
    s.append(name);
    push_char(&mut s, '"');
    push_char(&mut s, ':');
    assert(s@ =~= json_member(name@, Seq::empty()));
    s
}

impl SqlError {
    /// The error as a JSON object.
    pub fn render(&self) -> (json: String)
        ensures
            json@ == sql_error_json(self.code as int, self.text@, self.state),
    {
        let mut code = member_start("code");
        push_signed_decimal(&mut code, self.code as i64);
        let mut message = member_start("message");
        push_json_string(&mut message, self.text.as_str());
        let mut state = member_start("state");
        push_json_string(&mut state, self.state.name());
        proof {
            assert(code@ =~= json_member("code"@, signed_decimal(self.code as int)));
            assert(message@ =~= json_member("message"@, json_string(self.text@)));
            assert(state@ =~= json_member("state"@, json_string(self.state.spec_name())));
        }
        let mut members: Vec<String> = Vec::new();
        members.push(code);
        members.push(message);
        members.push(state);
        let joined = join_strings(&members, ",");
        let mut json = String::new();
        push_char(&mut json, '{');
        json.append(joined.as_str());
        push_char(&mut json, '}');
        proof {
            assert(texts(members@) =~= seq![
                json_member("code"@, signed_decimal(self.code as int)),
                json_member("message"@, json_string(self.text@)),
                json_member("state"@, json_string(self.state.spec_name())),
            ]);
            assert(json@ =~= sql_error_json(self.code as int, self.text@, self.state));
        }
        json
    }
}

/// Why an operation on a statement failed.
#[derive(Clone, Debug, PartialEq, Eq)]
pub enum StatementError {
    /// The native layer reported a failure.
    Sql(SqlError),
    /// The declared shape and the shape that the cursor describes differ.
    Protocol { declared: usize, described: usize },
    /// The operation is not possible in the state the statement is in.
    State(StatementState),
    /// The cells of the shape cannot be allocated.
    Size,
    /// A parameter could not be encoded.
    Codec(CodecError),
}

/// What is told of a failed operation on a statement.
pub open spec fn statement_error_text(e: StatementError) -> Seq<char> {
    match e {
        StatementError::Sql(e) => sql_error_json(e.code as int, e.text@, e.state),
        StatementError::Protocol { declared, described } => "declared "@ + decimal(
            declared as nat,
        ) + " columns, the cursor describes "@ + decimal(described as nat),
        StatementError::State(state) => "not possible while "@ + state.spec_name(),
        StatementError::Size => "the buffers are too large"@,
        StatementError::Codec(e) => e.spec_text(),
    }
}

impl StatementError {
    /// The error in words; a native failure as its JSON object.
    pub fn message(&self) -> (s: String)
        ensures
            s@ == statement_error_text(*self),
    {
        match self {
            StatementError::Sql(e) => e.render(),
            StatementError::Protocol { declared, described } => {
                let mut s = String::from_str("declared ");
                push_decimal(&mut s, *declared as u64);
                s.append(" columns, the cursor describes ");
                push_decimal(&mut s, *described as u64);
                s
            },
            StatementError::State(state) => {
                let mut s = String::from_str("not possible while ");
                s.append(state.name());
                s
            },
            StatementError::Size => String::from_str("the buffers are too large"),
            StatementError::Codec(e) => String::from_str(e.text()),
        }
    }
}

/// The shape of the parameters of a statement, and how a value of the
/// caller's choice is written into their cells.
pub trait ParamsProvider {
    /// What is written into the cells.
    type Input;

    /// The parameter slots, in declaration order.
    spec fn spec_members(&self) -> Seq<Member>;

    /// Whether writing `params` takes the cells from `before` to `after`
    /// and ends without an error, or with the error `failure`.
    spec fn projected(
        &self,
        params: &Self::Input,
        before: ParamBuffer,
        after: ParamBuffer,
        failure: Option<CodecError>,
    ) -> bool;

    /// The parameter slots, in declaration order.
    fn members(&self) -> (members: Vec<Member>)
        ensures
            members@ == self.spec_members(),
    ;

    /// Writes `params` into the first row of `projection`, slot by slot in
    /// declaration order. The layout of the buffer stays as it is, and so
    /// does every byte and every indicator outside the cells of that row.
    fn project_values(&self, params: &Self::Input, projection: &mut ParamsProjection) -> (r: Result<
        (),
        CodecError,
    >)
        requires
            old(projection).wf(),
            old(projection).members() == self.spec_members(),
            old(projection).cells().batch >= 1,
        ensures
            final(projection).wf(),
            final(projection).members() == old(projection).members(),
            final(projection).cells().same_layout(old(projection).cells()),
            old(projection).cells().changed_only_in_row(
                final(projection).cells(),
                0,
                old(projection).members().len() as int,
            ),
            self.projected(
                params,
                *old(projection),
                *final(projection),
                match r {
                    Ok(_) => None,
                    Err(e) => Some(e),
                },
            ),
    ;
}

/// What the caller has to hand to the native cursor to bind one parameter.
#[derive(Clone, Copy, Debug, PartialEq, Eq, Structural)]
pub struct Binding {
    /// Position of the parameter, counted from one.
    pub position: usize,
    /// Native type code.
    pub native_code: u16,
    /// Where the cell begins in the data region.
    pub offset: usize,
    /// Width of the cell.
    pub capacity: usize,
    /// Where the indicator of the cell lies among the indicators.
    pub slot: usize,
}

/// Whether parameters can be written and the statement executed in `state`.
pub open spec fn can_execute(state: StatementState) -> bool {
    state is Prepared || state is Bound || state is Fetching
}

/// The state after a native call failed in `stable`: a fatal failure closes
/// the statement, any other leaves it where it was.
pub open spec fn state_after_failure(stable: StatementState, fatal: bool) -> StatementState {
    if fatal {
        StatementState::Closed
    } else {
        stable
    }
}

/// A prepared statement with the cells of its parameters.
pub struct Statement<P> {
    sql: String,
    provider: P,
    state: StatementState,
    stable: StatementState,
    params: ParamBuffer,
}

impl<P: ParamsProvider> Statement<P> {
    /// Text of the statement.
    pub closed spec fn sql(&self) -> Seq<char> {
        self.sql@
    }

    /// The provider of the parameter shape.
    pub closed spec fn provider(&self) -> P {
        self.provider
    }

    /// Where the statement stands.
    pub closed spec fn state(&self) -> StatementState {
        self.state
    }

    /// The state to which a failure that is not fatal takes the statement
    /// back.
    pub closed spec fn stable(&self) -> StatementState {
        self.stable
    }

    /// The cells of the parameters.
    pub closed spec fn params(&self) -> ParamBuffer {
        self.params
    }

    /// The parameter cells are laid out, and but for a statement that is
    /// executing the state is the stable one.
    pub open spec fn wf(&self) -> bool {
        &&& self.params().wf()
        &&& self.params().members() == self.provider().spec_members()
        &&& self.params().cells().batch == 1
        &&& !(self.state() is Executing) ==> self.stable() == self.state()
        &&& self.state() is Executing ==> can_execute(self.stable())
    }

    /// Takes over a statement that the native cursor has prepared.
    ///
    /// `native` is how the native prepare went. When it failed there is no
    /// statement, and the error carries the diagnostic. Else the
    /// parameters are laid out for one row, in the order of the provider's
    /// members, and the statement is [`StatementState::Prepared`].
    pub fn prepare(sql: &str, params_provider: P, native: Result<(), Diagnostic>) -> (r: Result<
        Statement<P>,
        StatementError,
    >)
        ensures
            match r {
                Ok(s) => {
                    &&& native is Ok
                    &&& s.wf()
                    &&& s.sql() == sql@
                    &&& s.provider() == params_provider
                    &&& s.state() is Prepared
                    &&& s.params().members() == params_provider.spec_members()
                    &&& s.params().cells().batch == 1
                },
                Err(StatementError::Sql(e)) => {
                    &&& native matches Err(d)
                    &&& e.code == d.code
                    &&& e.text@ == d.text@
                    &&& e.state == state_after_failure(StatementState::Unbound, d.fatal)
                },
                Err(StatementError::Size) => native is Ok && !region_fits(
                    member_widths(params_provider.spec_members()),
                    1,
                ),
                Err(_) => false,
            },
    {
        match native {
            Err(d) => {
                let state = if d.fatal {
                    StatementState::Closed
                } else {
                    StatementState::Unbound
                };
                Err(StatementError::Sql(SqlError { code: d.code, text: d.text, state }))
            },
            Ok(_) => {
                let members = params_provider.members();
                match ParamBuffer::new(members, 1) {
                    None => Err(StatementError::Size),
                    Some(params) => Ok(
                        Statement {
                            sql: String::from_str(sql),
                            provider: params_provider,
                            state: StatementState::Prepared,
                            stable: StatementState::Prepared,
                            params,
                        },
                    ),
                }
            },
        }
    }

    /// As [`Statement::prepare`], for a provider that was chosen at runtime
    /// and comes in a box.
    pub fn prepare_dynamic(
        sql: &str,
        params_provider: Box<P>,
        native: Result<(), Diagnostic>,
    ) -> (r: Result<Statement<P>, StatementError>)
        ensures
            match r {
                Ok(s) => {
                    &&& native is Ok
                    &&& s.wf()
                    &&& s.sql() == sql@
                    &&& s.provider() == *params_provider
                    &&& s.state() is Prepared
                    &&& s.params().members() == params_provider.spec_members()
                    &&& s.params().cells().batch == 1
                },
                Err(StatementError::Sql(e)) => {
                    &&& native matches Err(d)
                    &&& e.code == d.code
                    &&& e.text@ == d.text@
                    &&& e.state == state_after_failure(StatementState::Unbound, d.fatal)
                },
                Err(StatementError::Size) => native is Ok && !region_fits(
                    member_widths(params_provider.spec_members()),
                    1,
                ),
                Err(_) => false,
            },
    {
        Self::prepare(sql, *params_provider, native)
    }

    /// Where the statement stands.
    pub fn current_state(&self) -> (state: StatementState)
        ensures
            state == self.state(),
    {
        self.state
    }

    /// The cells of the parameters.
    pub fn param_buffer(&self) -> (params: &ParamBuffer)
        ensures
            *params == self.params(),
    {
        &self.params
    }

    /// What to bind: one entry for each parameter, in declaration order,
    /// with the place of its cell in the first row.
    pub fn bindings(&self) -> (list: Vec<Binding>)
        requires
            self.wf(),
        ensures
            list.len() == self.params().members().len(),
            forall|i: int|
                0 <= i < list.len() ==> #[trigger] list[i] == (Binding {
                    position: (i + 1) as usize,
                    native_code: self.params().members()[i].descriptor.native_code,
                    offset: self.params().cells().handle(i, 0).offset,
                    capacity: self.params().cells().handle(i, 0).capacity,
                    slot: self.params().cells().handle(i, 0).slot,
                }),
    {
        let n: usize = self.params.len();
        let mut list: Vec<Binding> = Vec::new();
        let mut i: usize = 0;
        while i < n
            invariant
                self.wf(),
                n == self.params().members().len(),
                n == self.params().cells().widths.len(),
                i <= n,
                list.len() == i,
                forall|k: int|
                    0 <= k < i ==> #[trigger] list[k] == (Binding {
                        position: (k + 1) as usize,
                        native_code: self.params().members()[k].descriptor.native_code,
                        offset: self.params().cells().handle(k, 0).offset,
                        capacity: self.params().cells().handle(k, 0).capacity,
                        slot: self.params().cells().handle(k, 0).slot,
                    }),
            decreases n - i,
        {
            match self.params.value(i, 0) {
                Some(h) => {
                    list.push(
                        Binding {
                            position: i + 1,
                            native_code: self.params.member(i).descriptor.native_code,
                            offset: h.offset,
                            capacity: h.capacity,
                            slot: h.slot,
                        },
                    );
                },
                None => {
                    assert(false);
                },
            }
            i += 1;
        }
        list
    }

    /// Writes `input` into the parameter cells and moves on to
    /// [`StatementState::Executing`]; the caller then runs the native
    /// execute and reports with [`Statement::executed`].
    ///
    /// Refused with [`StatementError::State`] unless the statement is
    /// prepared, bound or fetching. When a value cannot be encoded the
    /// statement stays in its state and the error is returned.
    pub fn execute(&mut self, input: &P::Input) -> (r: Result<(), StatementError>)
        requires
            old(self).wf(),
        ensures
            final(self).wf(),
            final(self).sql() == old(self).sql(),
            final(self).provider() == old(self).provider(),
            final(self).params().members() == old(self).params().members(),
            final(self).params().cells().same_layout(old(self).params().cells()),
            old(self).params().cells().changed_only_in_row(
                final(self).params().cells(),
                0,
                old(self).params().members().len() as int,
            ),
            match r {
                Ok(_) => {
                    &&& can_execute(old(self).state())
                    &&& final(self).state() is Executing
                    &&& final(self).stable() == old(self).state()
                    &&& old(self).provider().projected(
                        input,
                        old(self).params(),
                        final(self).params(),
                        None,
                    )
                },
                Err(StatementError::State(s)) => {
                    &&& !can_execute(old(self).state())
                    &&& s == old(self).state()
                    &&& final(self).state() == old(self).state()
                    &&& final(self).params() == old(self).params()
                },
                Err(StatementError::Codec(e)) => {
                    &&& can_execute(old(self).state())
                    &&& final(self).state() == old(self).state()
                    &&& old(self).provider().projected(
                        input,
                        old(self).params(),
                        final(self).params(),
                        Some(e),
                    )
                },
                Err(_) => false,
            },
    {
        match self.state {
            StatementState::Prepared | StatementState::Bound | StatementState::Fetching => {},
            _ => {
                return Err(StatementError::State(self.state));
            },
        }
        match self.provider.project_values(input, &mut self.params) {
            Err(e) => Err(StatementError::Codec(e)),
            Ok(_) => {
                self.stable = self.state;
                self.state = StatementState::Executing;
                Ok(())
            },
        }
    }

    /// Takes note of how the native execute went.
    ///
    /// After a success the statement is [`StatementState::Fetching`] and
    /// the count of affected rows is handed on. After a failure it is
    /// closed when the failure is fatal, and else back in the state from
    /// which it was executed.
    pub fn executed(&mut self, native: Result<u64, Diagnostic>) -> (r: Result<u64, StatementError>)
        requires
            old(self).wf(),
        ensures
            final(self).wf(),
            final(self).sql() == old(self).sql(),
            final(self).provider() == old(self).provider(),
            final(self).params() == old(self).params(),
            match r {
                Ok(rows) => {
                    &&& old(self).state() is Executing
                    &&& native == Ok::<u64, Diagnostic>(rows)
                    &&& final(self).state() is Fetching
                },
                Err(StatementError::State(s)) => {
                    &&& !(old(self).state() is Executing)
                    &&& s == old(self).state()
                    &&& final(self).state() == old(self).state()
                },
                Err(StatementError::Sql(e)) => {
                    &&& old(self).state() is Executing
                    &&& native matches Err(d)
                    &&& e.code == d.code
                    &&& e.text@ == d.text@
                    &&& e.state == state_after_failure(old(self).stable(), d.fatal)
                    &&& final(self).state() == e.state
                },
                Err(_) => false,
            },
    {
        match self.state {
            StatementState::Executing => {},
            _ => {
                return Err(StatementError::State(self.state));
            },
        }
        match native {
            Ok(rows) => {
                self.state = StatementState::Fetching;
                self.stable = StatementState::Fetching;
                Ok(rows)
            },
            Err(d) => {
                let state = if d.fatal {
                    StatementState::Closed
                } else {
                    self.stable
                };
                self.state = state;
                self.stable = state;
                Err(StatementError::Sql(SqlError { code: d.code, text: d.text, state }))
            },
        }
    }

    /// Takes note of a native failure outside of execute, such as a failed
    /// bind, define or fetch: a fatal one closes the statement, any other
    /// leaves it in its stable state.
    pub fn failed(&mut self, d: Diagnostic) -> (e: SqlError)
        requires
            old(self).wf(),
        ensures
            final(self).wf(),
            final(self).sql() == old(self).sql(),
            final(self).provider() == old(self).provider(),
            final(self).params() == old(self).params(),
            e.code == d.code,
            e.text@ == d.text@,
            e.state == state_after_failure(old(self).stable(), d.fatal),
            final(self).state() == e.state,
    {
        let state = if d.fatal {
            StatementState::Closed
        } else {
            self.stable
        };
        self.state = state;
        self.stable = state;
        SqlError { code: d.code, text: d.text, state }
    }

    /// Lays out the result side of a prepared statement for `batch` rows
    /// and moves on to [`StatementState::Bound`].
    ///
    /// `described` is the number of columns that the cursor describes. A
    /// provider that declares another number is refused with
    /// [`StatementError::Protocol`], before anything is fetched. A statement
    /// that is not [`StatementState::Prepared`] is refused with
    /// [`StatementError::State`]. After a refusal the statement is as it was.
    pub fn query<R: ResultsProvider>(
        &mut self,
        results_provider: R,
        batch: usize,
        described: usize,
    ) -> (r: Result<Query<R>, StatementError>)
        requires
            old(self).wf(),
        ensures
            final(self).wf(),
            final(self).sql() == old(self).sql(),
            final(self).provider() == old(self).provider(),
            final(self).params() == old(self).params(),
            match r {
                Ok(q) => {
                    &&& old(self).state() is Prepared
                    &&& final(self).state() is Bound
                    &&& results_provider.spec_descriptors().len() == described
                    &&& q.wf()
                    &&& q.provider() == results_provider
                    &&& q.results().cells().batch == batch
                    &&& q.results().rows() == 0
                    &&& q.iterator() == (QueryIterator { state: QueryState::Ready, drained: false })
                },
                Err(StatementError::State(s)) => {
                    &&& !(old(self).state() is Prepared)
                    &&& s == old(self).state()
                    &&& final(self).state() == old(self).state()
                },
                Err(StatementError::Protocol { declared, described: d }) => {
                    &&& old(self).state() is Prepared
                    &&& final(self).state() == old(self).state()
                    &&& declared == results_provider.spec_descriptors().len()
                    &&& d == described
                    &&& declared != described
                },
                Err(StatementError::Size) => {
                    &&& old(self).state() is Prepared
                    &&& final(self).state() == old(self).state()
                    &&& results_provider.spec_descriptors().len() == described
                    &&& (batch == 0 || !region_fits(
                        descriptor_widths(results_provider.spec_descriptors()),
                        batch as nat,
                    ))
                },
                Err(_) => false,
            },
    {
        match self.state {
            StatementState::Prepared => {},
            _ => {
                return Err(StatementError::State(self.state));
            },
        }
        match Query::new(results_provider, batch, described) {
            Ok(q) => {
                self.state = StatementState::Bound;
                self.stable = StatementState::Bound;
                Ok(q)
            },
            Err(e) => Err(e),
        }
    }

    /// Closes the statement. A closed statement stays closed.
    pub fn close(&mut self)
        requires
            old(self).wf(),
        ensures
            final(self).wf(),
            final(self).state() is Closed,
            final(self).sql() == old(self).sql(),
            final(self).provider() == old(self).provider(),
            final(self).params() == old(self).params(),
    {
        self.state = StatementState::Closed;
        self.stable = StatementState::Closed;
    }
}

} // verus!

//! The store that holds the firmware's variables, as far as this crate needs
//! it: something that lists the names of the variables and reads one of them.

use crate::efivar::{EFIVariable, VariableName};
use vstd::prelude::*;

verus! {

/// What reading one variable came to, as a listing of all variables holds
/// it: the variable, or its name with the reason why it could not be read.
pub open spec fn listed<R>(name: VariableName, outcome: Option<Result<EFIVariable, R>>) -> Seq<
    Result<EFIVariable, (VariableName, R)>,
> {
    match outcome {
        None => Seq::empty(),
        Some(Ok(variable)) => seq![Ok(variable)],
        Some(Err(e)) => seq![Err((name, e))],
    }
}

/// The listing of the variables called `names`, where reading them came to
/// `outcomes`, one for each name and in the same order.
pub open spec fn listing<R>(
    names: Seq<VariableName>,
    outcomes: Seq<Option<Result<EFIVariable, R>>>,
) -> Seq<Result<EFIVariable, (VariableName, R)>>
    recommends
        names.len() == outcomes.len(),
    decreases names.len(),
{
    if names.len() == 0 {
        Seq::empty()
    } else {
        listing(names.drop_last(), outcomes.drop_last()) + listed(names.last(), outcomes.last())
    }
}

/// Adds to a listing what reading the variable `name` came to: nothing where
/// no such variable exists, the variable where it was read, and the name
/// with the failure where it was not.
pub fn push_read_outcome<R>(
    list: &mut Vec<Result<EFIVariable, (VariableName, R)>>,
    name: VariableName,
    outcome: Option<Result<EFIVariable, R>>,
)
    ensures
        final(list)@ == old(list)@ + listed(name, outcome),
{
    match outcome {
        None => {},
        Some(Ok(variable)) => {
            list.push(Ok(variable));
        },
        Some(Err(e)) => {
            list.push(Err((name, e)));
        },
    }
}

/// A store of firmware variables.
pub trait EFIVars {
    /// Why the names could not be listed.
    type ListError;

    /// Why a variable could not be read.
    type ReadError;

    /// The names of all variables, in the store's order. A name that cannot be
    /// made sense of fails the whole listing.
    fn enumerate_variables(&self) -> Result<Vec<VariableName>, Self::ListError>;

    /// The variable called `name`: `None` where the store holds none, else
    /// what reading it came to.
    fn read_variable(&self, name: &VariableName) -> Option<Result<EFIVariable, Self::ReadError>>;

    /// All variables: lists the names, then reads one variable after the
    /// other in that order. A variable that cannot be read is listed with its
    /// name and the failure; only a failure to list the names fails the whole.
    fn list_variables(&self) -> (r: Result<
        Vec<Result<EFIVariable, (VariableName, Self::ReadError)>>,
        Self::ListError,
    >)
        ensures
            exists|found: Result<Vec<VariableName>, Self::ListError>|
                {
                    &&& call_ensures(Self::enumerate_variables, (self,), found)
                    &&& match found {
                        Err(e) => r matches Err(f) && f == e,
                        Ok(names) => r matches Ok(list) && exists|
                            outcomes: Seq<Option<Result<EFIVariable, Self::ReadError>>>,
                        |
                            {
                                &&& outcomes.len() == names.len()
                                &&& forall|k: int|
                                    0 <= k < names.len() ==> call_ensures(
                                        Self::read_variable,
                                        (self, &names[k]),
                                        #[trigger] outcomes[k],
                                    )
                                &&& list@ == listing(names@, outcomes)
                            },
                    }
                },
    {
        let names = match self.enumerate_variables() {
            Ok(names) => names,
            Err(e) => {
                return Err(e);
            },
        };
        let mut variables: Vec<Result<EFIVariable, (VariableName, Self::ReadError)>> = Vec::new();
        let ghost mut outcomes: Seq<Option<Result<EFIVariable, Self::ReadError>>> = Seq::empty();
        for name in it: names.into_iter()
            invariant
                outcomes.len() == it.index(),
                forall|k: int|
                    0 <= k < outcomes.len() ==> call_ensures(
                        Self::read_variable,
                        (self, &names[k]),
                        #[trigger] outcomes[k],
                    ),
                variables@ == listing(names@.take(it.index() as int), outcomes),
        {
            let outcome = self.read_variable(&name);
            proof {
                let before = outcomes;
                outcomes = outcomes.push(outcome);
                assert(outcomes.drop_last() == before);
                assert(names@.take(it.index() + 1).drop_last() == names@.take(it.index() as int));
            }
            push_read_outcome(&mut variables, name, outcome);
        }
        assert(names@.take(names.len() as int) == names@);
        Ok(variables)
    }
}

} // verus!

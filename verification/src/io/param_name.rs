//! The names of the tensors of a saved network: `layer`, the number of the layer, a dot, and what the
//! tensor is to the layer.

use vstd::prelude::*;
use vstd::string::*;

use crate::util::text::{
    append_decimal, decimal, is_digit, law_decimal_is_parsed_back, lemma_decimal, parse_size,
    parsed_size,
};

verus! {

/// What a tensor is to its layer.
#[derive(Debug, Clone, Copy, PartialEq, Eq, Structural)]
pub enum ParamType {
    W,
    B,
    MasterW,
    MasterB,
    NormW,
    NormB,
    MasterNormW,
    MasterNormB,
    DvW,
    DvB,
    DmW,
    DmB,
    DvNormW,
    DvNormB,
    DmNormW,
    DmNormB,
}

/// The kind of tensor that a suffix of a name stands for.
pub open spec fn param_of(s: Seq<char>) -> Option<ParamType> {
    if s == "w"@ {
        Some(ParamType::W)
    } else if s == "b"@ {
        Some(ParamType::B)
    } else if s == "master_w"@ {
        Some(ParamType::MasterW)
    } else if s == "master_b"@ {
        Some(ParamType::MasterB)
    } else if s == "norm_w"@ {
        Some(ParamType::NormW)
    } else if s == "norm_b"@ {
        Some(ParamType::NormB)
    } else if s == "master_norm_w"@ {
        Some(ParamType::MasterNormW)
    } else if s == "master_norm_b"@ {
        Some(ParamType::MasterNormB)
    } else if s == "dv_w"@ {
        Some(ParamType::DvW)
    } else if s == "dv_b"@ {
        Some(ParamType::DvB)
    } else if s == "dm_w"@ {
        Some(ParamType::DmW)
    } else if s == "dm_b"@ {
        Some(ParamType::DmB)
    } else if s == "dv_norm_w"@ {
        Some(ParamType::DvNormW)
    } else if s == "dv_norm_b"@ {
        Some(ParamType::DvNormB)
    } else if s == "dm_norm_w"@ {
        Some(ParamType::DmNormW)
    } else if s == "dm_norm_b"@ {
        Some(ParamType::DmNormB)
    } else {
        None
    }
}

impl ParamType {
    /// The suffix of the names of tensors of this kind.
    pub open spec fn suffix(self) -> Seq<char> {
        match self {
            ParamType::W => "w"@,
            ParamType::B => "b"@,
            ParamType::MasterW => "master_w"@,
            ParamType::MasterB => "master_b"@,
            ParamType::NormW => "norm_w"@,
            ParamType::NormB => "norm_b"@,
            ParamType::MasterNormW => "master_norm_w"@,
            ParamType::MasterNormB => "master_norm_b"@,
            ParamType::DvW => "dv_w"@,
            ParamType::DvB => "dv_b"@,
            ParamType::DmW => "dm_w"@,
            ParamType::DmB => "dm_b"@,
            ParamType::DvNormW => "dv_norm_w"@,
            ParamType::DvNormB => "dv_norm_b"@,
            ParamType::DmNormW => "dm_norm_w"@,
            ParamType::DmNormB => "dm_norm_b"@,
        }
    }

    /// The tensor is always of 32-bit numbers.
    pub open spec fn full_precision(self) -> bool {
        !(self is W || self is B || self is NormW || self is NormB)
    }

    /// The tensor is saved by the number of its columns alone.
    pub open spec fn flat(self) -> bool {
        !(self is W || self is MasterW || self is MasterB || self is DvW || self is DmW)
    }

    /// The suffix of the names of tensors of this kind.
    pub fn to_suffix(self) -> (r: &'static str)
        ensures
            r@ == self.suffix(),
    {
        match self {
            ParamType::W => "w",
            ParamType::B => "b",
            ParamType::MasterW => "master_w",
            ParamType::MasterB => "master_b",
            ParamType::NormW => "norm_w",
            ParamType::NormB => "norm_b",
            ParamType::MasterNormW => "master_norm_w",
            ParamType::MasterNormB => "master_norm_b",
            ParamType::DvW => "dv_w",
            ParamType::DvB => "dv_b",
            ParamType::DmW => "dm_w",
            ParamType::DmB => "dm_b",
            ParamType::DvNormW => "dv_norm_w",
            ParamType::DvNormB => "dv_norm_b",
            ParamType::DmNormW => "dm_norm_w",
            ParamType::DmNormB => "dm_norm_b",
        }
    }

    /// The kind of tensor that a suffix of a name stands for.
    pub fn from_str(s: &str) -> (r: Option<Self>)
        ensures
            r == param_of(s@),
    {
        let s: String = s.to_owned();
        if s == "w".to_owned() {
            Some(ParamType::W)
        } else if s == "b".to_owned() {
            Some(ParamType::B)
        } else if s == "master_w".to_owned() {
            Some(ParamType::MasterW)
        } else if s == "master_b".to_owned() {
            Some(ParamType::MasterB)
        } else if s == "norm_w".to_owned() {
            Some(ParamType::NormW)
        } else if s == "norm_b".to_owned() {
            Some(ParamType::NormB)
        } else if s == "master_norm_w".to_owned() {
            Some(ParamType::MasterNormW)
        } else if s == "master_norm_b".to_owned() {
            Some(ParamType::MasterNormB)
        } else if s == "dv_w".to_owned() {
            Some(ParamType::DvW)
        } else if s == "dv_b".to_owned() {
            Some(ParamType::DvB)
        } else if s == "dm_w".to_owned() {
            Some(ParamType::DmW)
        } else if s == "dm_b".to_owned() {
            Some(ParamType::DmB)
        } else if s == "dv_norm_w".to_owned() {
            Some(ParamType::DvNormW)
        } else if s == "dv_norm_b".to_owned() {
            Some(ParamType::DvNormB)
        } else if s == "dm_norm_w".to_owned() {
            Some(ParamType::DmNormW)
        } else if s == "dm_norm_b".to_owned() {
            Some(ParamType::DmNormB)
        } else {
            None
        }
    }

    /// The tensor is always of 32-bit numbers.
    pub fn is_f32_only(&self) -> (r: bool)
        ensures
            r == self.full_precision(),
    {
        !matches!(self, ParamType::W | ParamType::B | ParamType::NormW | ParamType::NormB)
    }

    /// The tensor is saved by the number of its columns alone.
    pub fn is_vector(&self) -> (r: bool)
        ensures
            r == self.flat(),
    {
        !matches!(
            self,
            ParamType::W | ParamType::MasterW | ParamType::MasterB | ParamType::DvW | ParamType::DmW
        )
    }
}

/// The suffix of a kind stands for the kind.
pub proof fn law_suffix_is_parsed_back(kind: ParamType)
    ensures
        param_of(kind.suffix()) == Some(kind),
{
    reveal_strlit("w");
    reveal_strlit("b");
    reveal_strlit("master_w");
    reveal_strlit("master_b");
    reveal_strlit("norm_w");
    reveal_strlit("norm_b");
    reveal_strlit("master_norm_w");
    reveal_strlit("master_norm_b");
    reveal_strlit("dv_w");
    reveal_strlit("dv_b");
    reveal_strlit("dm_w");
    reveal_strlit("dm_b");
    reveal_strlit("dv_norm_w");
    reveal_strlit("dv_norm_b");
    reveal_strlit("dm_norm_w");
    reveal_strlit("dm_norm_b");
    // Suffixes of the same length differ in their second or their last character.
    assert("w"@[0] != "b"@[0]);
    assert("dv_w"@[1] == 'v' && "dv_w"@[3] == 'w');
    assert("dv_b"@[1] == 'v' && "dv_b"@[3] == 'b');
    assert("dm_w"@[1] == 'm' && "dm_w"@[3] == 'w');
    assert("dm_b"@[1] == 'm' && "dm_b"@[3] == 'b');
    assert("norm_w"@[5] == 'w' && "norm_b"@[5] == 'b');
    assert("master_w"@[7] == 'w' && "master_b"@[7] == 'b');
    assert("dv_norm_w"@[1] == 'v' && "dv_norm_w"@[8] == 'w');
    assert("dv_norm_b"@[1] == 'v' && "dv_norm_b"@[8] == 'b');
    assert("dm_norm_w"@[1] == 'm' && "dm_norm_w"@[8] == 'w');
    assert("dm_norm_b"@[1] == 'm' && "dm_norm_b"@[8] == 'b');
    assert("master_norm_w"@[12] == 'w' && "master_norm_b"@[12] == 'b');
}

/// What the name of a tensor says.
pub enum ParamName {
    /// The tensor belongs to no layer.
    Foreign,
    /// The name starts like that of a layer's tensor but goes on differently.
    Invalid { reason: &'static str },
    /// The layer, by its text and its number, and what the tensor is to it.
    Param { layer: String, index: usize, kind: ParamType },
}

/// [`ParamName`], with texts taken as sequences.
pub enum NameView {
    Foreign,
    Invalid { reason: Seq<char> },
    Param { layer: Seq<char>, index: usize, kind: ParamType },
}

impl View for ParamName {
    type V = NameView;

    open spec fn view(&self) -> NameView {
        match *self {
            ParamName::Foreign => NameView::Foreign,
            ParamName::Invalid { reason } => NameView::Invalid { reason: reason@ },
            ParamName::Param { layer, index, kind } => NameView::Param {
                layer: layer@,
                index,
                kind,
            },
        }
    }
}

/// What the name of a tensor says.
pub open spec fn parsed_name(name: Seq<char>) -> NameView {
    if !"layer"@.is_prefix_of(name) {
        NameView::Foreign
    } else {
        let rest = name.skip("layer"@.len() as int);
        match rest.index_of_first('.') {
            None => NameView::Invalid { reason: "missing '.' separator"@ },
            Some(dot) => match parsed_size(rest.take(dot)) {
                None => NameView::Invalid { reason: "invalid layer index number"@ },
                Some(index) => match param_of(rest.skip(dot + 1)) {
                    None => NameView::Invalid { reason: "unrecognized parameter type"@ },
                    Some(kind) => NameView::Param { layer: rest.take(dot), index, kind },
                },
            },
        }
    }
}

/// The name of a tensor of a layer.
pub open spec fn param_name(index: usize, kind: ParamType) -> Seq<char> {
    "layer"@ + decimal(index as nat) + "."@ + kind.suffix()
}

/// The name of a tensor says which layer it belongs to and what it is to it.
pub proof fn law_name_is_parsed_back(index: usize, kind: ParamType)
    ensures
        parsed_name(param_name(index, kind)) == (NameView::Param {
            layer: decimal(index as nat),
            index,
            kind,
        }),
{
    let name = param_name(index, kind);
    let rest = decimal(index as nat) + "."@ + kind.suffix();
    let dot = decimal(index as nat).len() as int;
    reveal_strlit("layer");
    reveal_strlit(".");
    assert(name.skip("layer"@.len() as int) =~= rest);
    assert("layer"@ =~= name.subrange(0, "layer"@.len() as int));
    law_decimal_is_parsed_back(index);
    law_suffix_is_parsed_back(kind);
    lemma_decimal(index as nat);
    rest.index_of_first_ensures('.');
    assert(rest[dot] == '.');
    assert forall|i: int| 0 <= i < dot implies rest[i] != '.' by {
        assert(is_digit(decimal(index as nat)[i]));
    }
    assert(rest.contains('.'));
    assert(rest.index_of_first('.') == Some(dot));
    assert(rest.take(dot) =~= decimal(index as nat));
    assert(rest.skip(dot + 1) =~= kind.suffix());
}

/// No two tensors of a network have the same name.
pub proof fn law_names_are_distinct(i: usize, a: ParamType, j: usize, b: ParamType)
    ensures
        param_name(i, a) == param_name(j, b) <==> i == j && a == b,
{
    law_name_is_parsed_back(i, a);
    law_name_is_parsed_back(j, b);
}

/// The place of the first dot of a text.
fn find_dot(s: &str) -> (r: Option<usize>)
    ensures
        r is Some <==> s@.index_of_first('.') is Some,
        r matches Some(k) ==> s@.index_of_first('.') == Some(k as int) && k < s@.len(),
{
    let len: usize = s.unicode_len();
    let mut k: usize = 0;
    proof {
        s@.index_of_first_ensures('.');
    }
    while k < len
        invariant
            len == s@.len(),
            k <= len,
            forall|j: int| 0 <= j < k ==> s@[j] != '.',
        decreases len - k,
    {
        if s.get_char(k) == '.' {
            proof {
                s@.index_of_first_ensures('.');
                assert(s@[k as int] == '.');
                assert(s@.contains('.'));
            }
            return Some(k);
        }
        k += 1;
    }
    None
}

/// What the name of a tensor says.
pub fn parse_name(name: &str) -> (r: ParamName)
    ensures
        r@ == parsed_name(name@),
{
    proof {
        reveal_strlit("layer");
    }
    let len: usize = name.unicode_len();
    if len < 5 {
        assert(!"layer"@.is_prefix_of(name@));
        return ParamName::Foreign;
    }
    if name.substring_char(0, 5).to_owned() != "layer".to_owned() {
        assert(!"layer"@.is_prefix_of(name@));
        return ParamName::Foreign;
    }
    let rest = name.substring_char(5, len);
    assert(rest@ =~= name@.skip(5));
    let dot: usize = match find_dot(rest) {
        Some(dot) => dot,
        None => {
            return ParamName::Invalid { reason: "missing '.' separator" };
        },
    };
    let layer = rest.substring_char(0, dot);
    let suffix = rest.substring_char(dot + 1, len - 5);
    assert(layer@ =~= rest@.take(dot as int));
    assert(suffix@ =~= rest@.skip(dot + 1));
    let index: usize = match parse_size(layer) {
        Some(index) => index,
        None => {
            return ParamName::Invalid { reason: "invalid layer index number" };
        },
    };
    match ParamType::from_str(suffix) {
        Some(kind) => ParamName::Param { layer: layer.to_owned(), index, kind },
        None => ParamName::Invalid { reason: "unrecognized parameter type" },
    }
}

/// Names a tensor of a layer.
pub fn name_param(index: usize, kind: ParamType) -> (r: String)
    ensures
        r@ == param_name(index, kind),
{
    let mut name: String = "layer".to_owned();
    append_decimal(&mut name, index);
    name.append(".");
    name.append(kind.to_suffix());
    name
}

/// The name of a tensor is put together from what the tensor is: a letter for weights or biases,
/// what the normalisation has behind a word of its own, and copies in full precision, velocities and
/// momenta behind a word for each of them.
pub proof fn law_suffixes_say_what_a_tensor_is()
    ensures
        ParamType::W.suffix() == seq!['w'] && ParamType::B.suffix() == seq!['b'],
        ParamType::NormW.suffix() == "norm_"@ + ParamType::W.suffix(),
        ParamType::NormB.suffix() == "norm_"@ + ParamType::B.suffix(),
        ParamType::MasterW.suffix() == "master_"@ + ParamType::W.suffix(),
        ParamType::MasterB.suffix() == "master_"@ + ParamType::B.suffix(),
        ParamType::MasterNormW.suffix() == "master_"@ + ParamType::NormW.suffix(),
        ParamType::MasterNormB.suffix() == "master_"@ + ParamType::NormB.suffix(),
        ParamType::DvW.suffix() == "dv_"@ + ParamType::W.suffix(),
        ParamType::DvB.suffix() == "dv_"@ + ParamType::B.suffix(),
        ParamType::DvNormW.suffix() == "dv_"@ + ParamType::NormW.suffix(),
        ParamType::DvNormB.suffix() == "dv_"@ + ParamType::NormB.suffix(),
        ParamType::DmW.suffix() == "dm_"@ + ParamType::W.suffix(),
        ParamType::DmB.suffix() == "dm_"@ + ParamType::B.suffix(),
        ParamType::DmNormW.suffix() == "dm_"@ + ParamType::NormW.suffix(),
        ParamType::DmNormB.suffix() == "dm_"@ + ParamType::NormB.suffix(),
{
    reveal_strlit("norm_");
    reveal_strlit("master_");
    reveal_strlit("dv_");
    reveal_strlit("dm_");
    reveal_strlit("w");
    reveal_strlit("b");
    reveal_strlit("master_w");
    reveal_strlit("master_b");
    reveal_strlit("norm_w");
    reveal_strlit("norm_b");
    reveal_strlit("master_norm_w");
    reveal_strlit("master_norm_b");
    reveal_strlit("dv_w");
    reveal_strlit("dv_b");
    reveal_strlit("dm_w");
    reveal_strlit("dm_b");
    reveal_strlit("dv_norm_w");
    reveal_strlit("dv_norm_b");
    reveal_strlit("dm_norm_w");
    reveal_strlit("dm_norm_b");
}

} // verus!

//! ASDU: the six-byte data-unit identifier (type identification, variable
//! structure qualifier, cause of transmission, origin and common address)
//! over a raw information-object body, and its byte-level codec.

use vstd::prelude::*;
use crate::error::Error;

verus! {

/// Largest ASDU on the wire, identifier included.
pub const ASDU_SIZE_MAX: usize = 249;
/// Size in bytes of the data-unit identifier.
pub const IDENTIFIER_SIZE: usize = 6;
/// Largest information-object body: what remains of an ASDU after its identifier.
pub const ASDU_BODY_SIZE_MAX: usize = 243;

/// The common address reserved as invalid.
pub const INVALID_COMMON_ADDR: u16 = 0;
/// The broadcast common address.
pub const GLOBAL_COMMON_ADDR: u16 = 255;
/// An information-object address of zero means the address is irrelevant.
pub const INFO_OBJ_ADDR_IRRELEVANT: u16 = 0;

pub type OriginAddr = u8;
pub type CommonAddr = u16;

/// Type identification: which kind of information object the ASDU carries.
#[allow(non_camel_case_types)]
#[derive(Debug, Clone, Copy, PartialEq, Eq, Structural)]
pub enum TypeID {
    M_SP_NA_1,
    M_SP_TA_1,
    M_DP_NA_1,
    M_DP_TA_1,
    M_ST_NA_1,
    M_ST_TA_1,
    M_BO_NA_1,
    M_BO_TA_1,
    M_ME_NA_1,
    M_ME_TA_1,
    M_ME_NB_1,
    M_ME_TB_1,
    M_ME_NC_1,
    M_ME_TC_1,
    M_IT_NA_1,
    M_IT_TA_1,
    M_EP_TA_1,
    M_EP_TB_1,
    M_EP_TC_1,
    M_PS_NA_1,
    M_ME_ND_1,
    M_SP_TB_1,
    M_DP_TB_1,
    M_ST_TB_1,
    M_BO_TB_1,
    M_ME_TD_1,
    M_ME_TE_1,
    M_ME_TF_1,
    M_IT_TB_1,
    M_EP_TD_1,
    M_EP_TE_1,
    M_EP_TF_1,
    S_IT_TC_1,
    C_SC_NA_1,
    C_DC_NA_1,
    C_RC_NA_1,
    C_SE_NA_1,
    C_SE_NB_1,
    C_SE_NC_1,
    C_BO_NA_1,
    C_SC_TA_1,
    C_DC_TA_1,
    C_RC_TA_1,
    C_SE_TA_1,
    C_SE_TB_1,
    C_SE_TC_1,
    C_BO_TA_1,
    M_EI_NA_1,
    S_CH_NA_1,
    S_RP_NA_1,
    S_AR_NA_1,
    S_KR_NA_1,
    S_KS_NA_1,
    S_KC_NA_1,
    S_ER_NA_1,
    S_US_NA_1,
    S_UQ_NA_1,
    S_UR_NA_1,
    S_UK_NA_1,
    S_UA_NA_1,
    S_UC_NA_1,
    C_IC_NA_1,
    C_CI_NA_1,
    C_RD_NA_1,
    C_CS_NA_1,
    C_TS_NA_1,
    C_RP_NA_1,
    C_CD_NA_1,
    C_TS_TA_1,
    P_ME_NA_1,
    P_ME_NB_1,
    P_ME_NC_1,
    P_AC_NA_1,
    F_FR_NA_1,
    F_SR_NA_1,
    F_SC_NA_1,
    F_LS_NA_1,
    F_AF_NA_1,
    F_SG_NA_1,
    F_DR_TA_1,
    F_SC_NB_1,
}

impl TypeID {
    /// The octet that stands for this type identification on the wire.
    pub open spec fn spec_u8(self) -> u8 {
        match self {
            TypeID::M_SP_NA_1 => 1,
            TypeID::M_SP_TA_1 => 2,
            TypeID::M_DP_NA_1 => 3,
            TypeID::M_DP_TA_1 => 4,
            TypeID::M_ST_NA_1 => 5,
            TypeID::M_ST_TA_1 => 6,
            TypeID::M_BO_NA_1 => 7,
            TypeID::M_BO_TA_1 => 8,
            TypeID::M_ME_NA_1 => 9,
            TypeID::M_ME_TA_1 => 10,
            TypeID::M_ME_NB_1 => 11,
            TypeID::M_ME_TB_1 => 12,
            TypeID::M_ME_NC_1 => 13,
            TypeID::M_ME_TC_1 => 14,
            TypeID::M_IT_NA_1 => 15,
            TypeID::M_IT_TA_1 => 16,
            TypeID::M_EP_TA_1 => 17,
            TypeID::M_EP_TB_1 => 18,
            TypeID::M_EP_TC_1 => 19,
            TypeID::M_PS_NA_1 => 20,
            TypeID::M_ME_ND_1 => 21,
            TypeID::M_SP_TB_1 => 30,
            TypeID::M_DP_TB_1 => 31,
            TypeID::M_ST_TB_1 => 32,
            TypeID::M_BO_TB_1 => 33,
            TypeID::M_ME_TD_1 => 34,
            TypeID::M_ME_TE_1 => 35,
            TypeID::M_ME_TF_1 => 36,
            TypeID::M_IT_TB_1 => 37,
            TypeID::M_EP_TD_1 => 38,
            TypeID::M_EP_TE_1 => 39,
            TypeID::M_EP_TF_1 => 40,
            TypeID::S_IT_TC_1 => 41,
            TypeID::C_SC_NA_1 => 45,
            TypeID::C_DC_NA_1 => 46,
            TypeID::C_RC_NA_1 => 47,
            TypeID::C_SE_NA_1 => 48,
            TypeID::C_SE_NB_1 => 49,
            TypeID::C_SE_NC_1 => 50,
            TypeID::C_BO_NA_1 => 51,
            TypeID::C_SC_TA_1 => 58,
            TypeID::C_DC_TA_1 => 59,
            TypeID::C_RC_TA_1 => 60,
            TypeID::C_SE_TA_1 => 61,
            TypeID::C_SE_TB_1 => 62,
            TypeID::C_SE_TC_1 => 63,
            TypeID::C_BO_TA_1 => 64,
            TypeID::M_EI_NA_1 => 70,
            TypeID::S_CH_NA_1 => 81,
            TypeID::S_RP_NA_1 => 82,
            TypeID::S_AR_NA_1 => 83,
            TypeID::S_KR_NA_1 => 84,
            TypeID::S_KS_NA_1 => 85,
            TypeID::S_KC_NA_1 => 86,
            TypeID::S_ER_NA_1 => 87,
            TypeID::S_US_NA_1 => 90,
            TypeID::S_UQ_NA_1 => 91,
            TypeID::S_UR_NA_1 => 92,
            TypeID::S_UK_NA_1 => 93,
            TypeID::S_UA_NA_1 => 94,
            TypeID::S_UC_NA_1 => 95,
            TypeID::C_IC_NA_1 => 100,
            TypeID::C_CI_NA_1 => 101,
            TypeID::C_RD_NA_1 => 102,
            TypeID::C_CS_NA_1 => 103,
            TypeID::C_TS_NA_1 => 104,
            TypeID::C_RP_NA_1 => 105,
            TypeID::C_CD_NA_1 => 106,
            TypeID::C_TS_TA_1 => 107,
            TypeID::P_ME_NA_1 => 110,
            TypeID::P_ME_NB_1 => 111,
            TypeID::P_ME_NC_1 => 112,
            TypeID::P_AC_NA_1 => 113,
            TypeID::F_FR_NA_1 => 120,
            TypeID::F_SR_NA_1 => 121,
            TypeID::F_SC_NA_1 => 122,
            TypeID::F_LS_NA_1 => 123,
            TypeID::F_AF_NA_1 => 124,
            TypeID::F_SG_NA_1 => 125,
            TypeID::F_DR_TA_1 => 126,
            TypeID::F_SC_NB_1 => 127,
        }
    }

    /// The type identification an octet stands for. Octets 52 to 57 are
    /// reserved compatibility values that decode as integrated totals.
    pub open spec fn spec_from_u8(v: u8) -> Option<TypeID> {
        if v == 1 { Some(TypeID::M_SP_NA_1) }
        else if v == 2 { Some(TypeID::M_SP_TA_1) }
        else if v == 3 { Some(TypeID::M_DP_NA_1) }
        else if v == 4 { Some(TypeID::M_DP_TA_1) }
        else if v == 5 { Some(TypeID::M_ST_NA_1) }
        else if v == 6 { Some(TypeID::M_ST_TA_1) }
        else if v == 7 { Some(TypeID::M_BO_NA_1) }
        else if v == 8 { Some(TypeID::M_BO_TA_1) }
        else if v == 9 { Some(TypeID::M_ME_NA_1) }
        else if v == 10 { Some(TypeID::M_ME_TA_1) }
        else if v == 11 { Some(TypeID::M_ME_NB_1) }
        else if v == 12 { Some(TypeID::M_ME_TB_1) }
        else if v == 13 { Some(TypeID::M_ME_NC_1) }
        else if v == 14 { Some(TypeID::M_ME_TC_1) }
        else if v == 15 { Some(TypeID::M_IT_NA_1) }
        else if v == 16 { Some(TypeID::M_IT_TA_1) }
        else if v == 17 { Some(TypeID::M_EP_TA_1) }
        else if v == 18 { Some(TypeID::M_EP_TB_1) }
        else if v == 19 { Some(TypeID::M_EP_TC_1) }
        else if v == 20 { Some(TypeID::M_PS_NA_1) }
        else if v == 21 { Some(TypeID::M_ME_ND_1) }
        else if v == 30 { Some(TypeID::M_SP_TB_1) }
        else if v == 31 { Some(TypeID::M_DP_TB_1) }
        else if v == 32 { Some(TypeID::M_ST_TB_1) }
        else if v == 33 { Some(TypeID::M_BO_TB_1) }
        else if v == 34 { Some(TypeID::M_ME_TD_1) }
        else if v == 35 { Some(TypeID::M_ME_TE_1) }
        else if v == 36 { Some(TypeID::M_ME_TF_1) }
        else if v == 37 { Some(TypeID::M_IT_TB_1) }
        else if v == 38 { Some(TypeID::M_EP_TD_1) }
        else if v == 39 { Some(TypeID::M_EP_TE_1) }
        else if v == 40 { Some(TypeID::M_EP_TF_1) }
        else if v == 41 { Some(TypeID::S_IT_TC_1) }
        else if v == 45 { Some(TypeID::C_SC_NA_1) }
        else if v == 46 { Some(TypeID::C_DC_NA_1) }
        else if v == 47 { Some(TypeID::C_RC_NA_1) }
        else if v == 48 { Some(TypeID::C_SE_NA_1) }
        else if v == 49 { Some(TypeID::C_SE_NB_1) }
        else if v == 50 { Some(TypeID::C_SE_NC_1) }
        else if v == 51 { Some(TypeID::C_BO_NA_1) }
        else if 52 <= v && v <= 57 { Some(TypeID::M_IT_TA_1) }
        else if v == 58 { Some(TypeID::C_SC_TA_1) }
        else if v == 59 { Some(TypeID::C_DC_TA_1) }
        else if v == 60 { Some(TypeID::C_RC_TA_1) }
        else if v == 61 { Some(TypeID::C_SE_TA_1) }
        else if v == 62 { Some(TypeID::C_SE_TB_1) }
        else if v == 63 { Some(TypeID::C_SE_TC_1) }
        else if v == 64 { Some(TypeID::C_BO_TA_1) }
        else if v == 70 { Some(TypeID::M_EI_NA_1) }
        else if v == 81 { Some(TypeID::S_CH_NA_1) }
        else if v == 82 { Some(TypeID::S_RP_NA_1) }
        else if v == 83 { Some(TypeID::S_AR_NA_1) }
        else if v == 84 { Some(TypeID::S_KR_NA_1) }
        else if v == 85 { Some(TypeID::S_KS_NA_1) }
        else if v == 86 { Some(TypeID::S_KC_NA_1) }
        else if v == 87 { Some(TypeID::S_ER_NA_1) }
        else if v == 90 { Some(TypeID::S_US_NA_1) }
        else if v == 91 { Some(TypeID::S_UQ_NA_1) }
        else if v == 92 { Some(TypeID::S_UR_NA_1) }
        else if v == 93 { Some(TypeID::S_UK_NA_1) }
        else if v == 94 { Some(TypeID::S_UA_NA_1) }
        else if v == 95 { Some(TypeID::S_UC_NA_1) }
        else if v == 100 { Some(TypeID::C_IC_NA_1) }
        else if v == 101 { Some(TypeID::C_CI_NA_1) }
        else if v == 102 { Some(TypeID::C_RD_NA_1) }
        else if v == 103 { Some(TypeID::C_CS_NA_1) }
        else if v == 104 { Some(TypeID::C_TS_NA_1) }
        else if v == 105 { Some(TypeID::C_RP_NA_1) }
        else if v == 106 { Some(TypeID::C_CD_NA_1) }
        else if v == 107 { Some(TypeID::C_TS_TA_1) }
        else if v == 110 { Some(TypeID::P_ME_NA_1) }
        else if v == 111 { Some(TypeID::P_ME_NB_1) }
        else if v == 112 { Some(TypeID::P_ME_NC_1) }
        else if v == 113 { Some(TypeID::P_AC_NA_1) }
        else if v == 120 { Some(TypeID::F_FR_NA_1) }
        else if v == 121 { Some(TypeID::F_SR_NA_1) }
        else if v == 122 { Some(TypeID::F_SC_NA_1) }
        else if v == 123 { Some(TypeID::F_LS_NA_1) }
        else if v == 124 { Some(TypeID::F_AF_NA_1) }
        else if v == 125 { Some(TypeID::F_SG_NA_1) }
        else if v == 126 { Some(TypeID::F_DR_TA_1) }
        else if v == 127 { Some(TypeID::F_SC_NB_1) }
        else { None }
    }

    /// The octet that stands for this type identification on the wire.
    #[verifier::when_used_as_spec(spec_u8)]
    pub fn to_u8(self) -> (r: u8)
        ensures
            r == self.spec_u8(),
    {
        match self {
            TypeID::M_SP_NA_1 => 1,
            TypeID::M_SP_TA_1 => 2,
            TypeID::M_DP_NA_1 => 3,
            TypeID::M_DP_TA_1 => 4,
            TypeID::M_ST_NA_1 => 5,
            TypeID::M_ST_TA_1 => 6,
            TypeID::M_BO_NA_1 => 7,
            TypeID::M_BO_TA_1 => 8,
            TypeID::M_ME_NA_1 => 9,
            TypeID::M_ME_TA_1 => 10,
            TypeID::M_ME_NB_1 => 11,
            TypeID::M_ME_TB_1 => 12,
            TypeID::M_ME_NC_1 => 13,
            TypeID::M_ME_TC_1 => 14,
            TypeID::M_IT_NA_1 => 15,
            TypeID::M_IT_TA_1 => 16,
            TypeID::M_EP_TA_1 => 17,
            TypeID::M_EP_TB_1 => 18,
            TypeID::M_EP_TC_1 => 19,
            TypeID::M_PS_NA_1 => 20,
            TypeID::M_ME_ND_1 => 21,
            TypeID::M_SP_TB_1 => 30,
            TypeID::M_DP_TB_1 => 31,
            TypeID::M_ST_TB_1 => 32,
            TypeID::M_BO_TB_1 => 33,
            TypeID::M_ME_TD_1 => 34,
            TypeID::M_ME_TE_1 => 35,
            TypeID::M_ME_TF_1 => 36,
            TypeID::M_IT_TB_1 => 37,
            TypeID::M_EP_TD_1 => 38,
            TypeID::M_EP_TE_1 => 39,
            TypeID::M_EP_TF_1 => 40,
            TypeID::S_IT_TC_1 => 41,
            TypeID::C_SC_NA_1 => 45,
            TypeID::C_DC_NA_1 => 46,
            TypeID::C_RC_NA_1 => 47,
            TypeID::C_SE_NA_1 => 48,
            TypeID::C_SE_NB_1 => 49,
            TypeID::C_SE_NC_1 => 50,
            TypeID::C_BO_NA_1 => 51,
            TypeID::C_SC_TA_1 => 58,
            TypeID::C_DC_TA_1 => 59,
            TypeID::C_RC_TA_1 => 60,
            TypeID::C_SE_TA_1 => 61,
            TypeID::C_SE_TB_1 => 62,
            TypeID::C_SE_TC_1 => 63,
            TypeID::C_BO_TA_1 => 64,
            TypeID::M_EI_NA_1 => 70,
            TypeID::S_CH_NA_1 => 81,
            TypeID::S_RP_NA_1 => 82,
            TypeID::S_AR_NA_1 => 83,
            TypeID::S_KR_NA_1 => 84,
            TypeID::S_KS_NA_1 => 85,
            TypeID::S_KC_NA_1 => 86,
            TypeID::S_ER_NA_1 => 87,
            TypeID::S_US_NA_1 => 90,
            TypeID::S_UQ_NA_1 => 91,
            TypeID::S_UR_NA_1 => 92,
            TypeID::S_UK_NA_1 => 93,
            TypeID::S_UA_NA_1 => 94,
            TypeID::S_UC_NA_1 => 95,
            TypeID::C_IC_NA_1 => 100,
            TypeID::C_CI_NA_1 => 101,
            TypeID::C_RD_NA_1 => 102,
            TypeID::C_CS_NA_1 => 103,
            TypeID::C_TS_NA_1 => 104,
            TypeID::C_RP_NA_1 => 105,
            TypeID::C_CD_NA_1 => 106,
            TypeID::C_TS_TA_1 => 107,
            TypeID::P_ME_NA_1 => 110,
            TypeID::P_ME_NB_1 => 111,
            TypeID::P_ME_NC_1 => 112,
            TypeID::P_AC_NA_1 => 113,
            TypeID::F_FR_NA_1 => 120,
            TypeID::F_SR_NA_1 => 121,
            TypeID::F_SC_NA_1 => 122,
            TypeID::F_LS_NA_1 => 123,
            TypeID::F_AF_NA_1 => 124,
            TypeID::F_SG_NA_1 => 125,
            TypeID::F_DR_TA_1 => 126,
            TypeID::F_SC_NB_1 => 127,
        }
    }

    /// Parse a type-identification octet, or report it unknown.
    pub fn try_from(value: u8) -> (r: Result<TypeID, Error>)
        ensures
            match TypeID::spec_from_u8(value) {
                Some(t) => r == Ok::<TypeID, Error>(t),
                None => r == Err::<TypeID, Error>(Error::ErrUnknownTypeID(value)),
            },
    {
        if value == 1 { Ok(TypeID::M_SP_NA_1) }
        else if value == 2 { Ok(TypeID::M_SP_TA_1) }
        else if value == 3 { Ok(TypeID::M_DP_NA_1) }
        else if value == 4 { Ok(TypeID::M_DP_TA_1) }
        else if value == 5 { Ok(TypeID::M_ST_NA_1) }
        else if value == 6 { Ok(TypeID::M_ST_TA_1) }
        else if value == 7 { Ok(TypeID::M_BO_NA_1) }
        else if value == 8 { Ok(TypeID::M_BO_TA_1) }
        else if value == 9 { Ok(TypeID::M_ME_NA_1) }
        else if value == 10 { Ok(TypeID::M_ME_TA_1) }
        else if value == 11 { Ok(TypeID::M_ME_NB_1) }
        else if value == 12 { Ok(TypeID::M_ME_TB_1) }
        else if value == 13 { Ok(TypeID::M_ME_NC_1) }
        else if value == 14 { Ok(TypeID::M_ME_TC_1) }
        else if value == 15 { Ok(TypeID::M_IT_NA_1) }
        else if value == 16 { Ok(TypeID::M_IT_TA_1) }
        else if value == 17 { Ok(TypeID::M_EP_TA_1) }
        else if value == 18 { Ok(TypeID::M_EP_TB_1) }
        else if value == 19 { Ok(TypeID::M_EP_TC_1) }
        else if value == 20 { Ok(TypeID::M_PS_NA_1) }
        else if value == 21 { Ok(TypeID::M_ME_ND_1) }
        else if value == 30 { Ok(TypeID::M_SP_TB_1) }
        else if value == 31 { Ok(TypeID::M_DP_TB_1) }
        else if value == 32 { Ok(TypeID::M_ST_TB_1) }
        else if value == 33 { Ok(TypeID::M_BO_TB_1) }
        else if value == 34 { Ok(TypeID::M_ME_TD_1) }
        else if value == 35 { Ok(TypeID::M_ME_TE_1) }
        else if value == 36 { Ok(TypeID::M_ME_TF_1) }
        else if value == 37 { Ok(TypeID::M_IT_TB_1) }
        else if value == 38 { Ok(TypeID::M_EP_TD_1) }
        else if value == 39 { Ok(TypeID::M_EP_TE_1) }
        else if value == 40 { Ok(TypeID::M_EP_TF_1) }
        else if value == 41 { Ok(TypeID::S_IT_TC_1) }
        else if value == 45 { Ok(TypeID::C_SC_NA_1) }
        else if value == 46 { Ok(TypeID::C_DC_NA_1) }
        else if value == 47 { Ok(TypeID::C_RC_NA_1) }
        else if value == 48 { Ok(TypeID::C_SE_NA_1) }
        else if value == 49 { Ok(TypeID::C_SE_NB_1) }
        else if value == 50 { Ok(TypeID::C_SE_NC_1) }
        else if value == 51 { Ok(TypeID::C_BO_NA_1) }
        else if 52 <= value && value <= 57 { Ok(TypeID::M_IT_TA_1) }
        else if value == 58 { Ok(TypeID::C_SC_TA_1) }
        else if value == 59 { Ok(TypeID::C_DC_TA_1) }
        else if value == 60 { Ok(TypeID::C_RC_TA_1) }
        else if value == 61 { Ok(TypeID::C_SE_TA_1) }
        else if value == 62 { Ok(TypeID::C_SE_TB_1) }
        else if value == 63 { Ok(TypeID::C_SE_TC_1) }
        else if value == 64 { Ok(TypeID::C_BO_TA_1) }
        else if value == 70 { Ok(TypeID::M_EI_NA_1) }
        else if value == 81 { Ok(TypeID::S_CH_NA_1) }
        else if value == 82 { Ok(TypeID::S_RP_NA_1) }
        else if value == 83 { Ok(TypeID::S_AR_NA_1) }
        else if value == 84 { Ok(TypeID::S_KR_NA_1) }
        else if value == 85 { Ok(TypeID::S_KS_NA_1) }
        else if value == 86 { Ok(TypeID::S_KC_NA_1) }
        else if value == 87 { Ok(TypeID::S_ER_NA_1) }
        else if value == 90 { Ok(TypeID::S_US_NA_1) }
        else if value == 91 { Ok(TypeID::S_UQ_NA_1) }
        else if value == 92 { Ok(TypeID::S_UR_NA_1) }
        else if value == 93 { Ok(TypeID::S_UK_NA_1) }
        else if value == 94 { Ok(TypeID::S_UA_NA_1) }
        else if value == 95 { Ok(TypeID::S_UC_NA_1) }
        else if value == 100 { Ok(TypeID::C_IC_NA_1) }
        else if value == 101 { Ok(TypeID::C_CI_NA_1) }
        else if value == 102 { Ok(TypeID::C_RD_NA_1) }
        else if value == 103 { Ok(TypeID::C_CS_NA_1) }
        else if value == 104 { Ok(TypeID::C_TS_NA_1) }
        else if value == 105 { Ok(TypeID::C_RP_NA_1) }
        else if value == 106 { Ok(TypeID::C_CD_NA_1) }
        else if value == 107 { Ok(TypeID::C_TS_TA_1) }
        else if value == 110 { Ok(TypeID::P_ME_NA_1) }
        else if value == 111 { Ok(TypeID::P_ME_NB_1) }
        else if value == 112 { Ok(TypeID::P_ME_NC_1) }
        else if value == 113 { Ok(TypeID::P_AC_NA_1) }
        else if value == 120 { Ok(TypeID::F_FR_NA_1) }
        else if value == 121 { Ok(TypeID::F_SR_NA_1) }
        else if value == 122 { Ok(TypeID::F_SC_NA_1) }
        else if value == 123 { Ok(TypeID::F_LS_NA_1) }
        else if value == 124 { Ok(TypeID::F_AF_NA_1) }
        else if value == 125 { Ok(TypeID::F_SG_NA_1) }
        else if value == 126 { Ok(TypeID::F_DR_TA_1) }
        else if value == 127 { Ok(TypeID::F_SC_NB_1) }
        else { Err(Error::ErrUnknownTypeID(value)) }
    }
}

/// Every type identification decodes back from its own octet.
pub proof fn lemma_type_id_round_trip(t: TypeID)
    ensures
        TypeID::spec_from_u8(t.spec_u8()) == Some(t),
{
}

/// Cause of transmission: why an ASDU was sent. Cause numbers 0 to 47;
/// the six-bit field leaves 48 to 63 unassigned.
#[derive(Debug, Clone, Copy, PartialEq, Eq, Structural)]
pub enum Cause {
    Unused,
    Periodic,
    Background,
    Spontaneous,
    Initialized,
    Request,
    Activation,
    ActivationCon,
    Deactivation,
    DeactivationCon,
    ActivationTerm,
    FileTransfer,
    ReturnInfoRemote,
    ReturnInfoLocal,
    Authentication,
    SessionKey,
    UserRoleAndUpdateKey,
    Reserved1,
    Reserved2,
    Reserved3,
    InterrogatedByStation,
    InterrogatedByGroup1,
    InterrogatedByGroup2,
    InterrogatedByGroup3,
    InterrogatedByGroup4,
    InterrogatedByGroup5,
    InterrogatedByGroup6,
    InterrogatedByGroup7,
    InterrogatedByGroup8,
    InterrogatedByGroup9,
    InterrogatedByGroup10,
    InterrogatedByGroup11,
    InterrogatedByGroup12,
    InterrogatedByGroup13,
    InterrogatedByGroup14,
    InterrogatedByGroup15,
    InterrogatedByGroup16,
    RequestByGeneralCounter,
    RequestByGroup1Counter,
    RequestByGroup2Counter,
    RequestByGroup3Counter,
    RequestByGroup4Counter,
    Reserved4,
    Reserved5,
    UnknownTypeID,
    UnknownCOT,
    UnknownCA,
    UnknownIOA,
}

impl Cause {
    /// The six-bit cause number of this cause.
    pub open spec fn spec_u8(self) -> u8 {
        match self {
            Cause::Unused => 0,
            Cause::Periodic => 1,
            Cause::Background => 2,
            Cause::Spontaneous => 3,
            Cause::Initialized => 4,
            Cause::Request => 5,
            Cause::Activation => 6,
            Cause::ActivationCon => 7,
            Cause::Deactivation => 8,
            Cause::DeactivationCon => 9,
            Cause::ActivationTerm => 10,
            Cause::FileTransfer => 11,
            Cause::ReturnInfoRemote => 12,
            Cause::ReturnInfoLocal => 13,
            Cause::Authentication => 14,
            Cause::SessionKey => 15,
            Cause::UserRoleAndUpdateKey => 16,
            Cause::Reserved1 => 17,
            Cause::Reserved2 => 18,
            Cause::Reserved3 => 19,
            Cause::InterrogatedByStation => 20,
            Cause::InterrogatedByGroup1 => 21,
            Cause::InterrogatedByGroup2 => 22,
            Cause::InterrogatedByGroup3 => 23,
            Cause::InterrogatedByGroup4 => 24,
            Cause::InterrogatedByGroup5 => 25,
            Cause::InterrogatedByGroup6 => 26,
            Cause::InterrogatedByGroup7 => 27,
            Cause::InterrogatedByGroup8 => 28,
            Cause::InterrogatedByGroup9 => 29,
            Cause::InterrogatedByGroup10 => 30,
            Cause::InterrogatedByGroup11 => 31,
            Cause::InterrogatedByGroup12 => 32,
            Cause::InterrogatedByGroup13 => 33,
            Cause::InterrogatedByGroup14 => 34,
            Cause::InterrogatedByGroup15 => 35,
            Cause::InterrogatedByGroup16 => 36,
            Cause::RequestByGeneralCounter => 37,
            Cause::RequestByGroup1Counter => 38,
            Cause::RequestByGroup2Counter => 39,
            Cause::RequestByGroup3Counter => 40,
            Cause::RequestByGroup4Counter => 41,
            Cause::Reserved4 => 42,
            Cause::Reserved5 => 43,
            Cause::UnknownTypeID => 44,
            Cause::UnknownCOT => 45,
            Cause::UnknownCA => 46,
            Cause::UnknownIOA => 47,
        }
    }

    /// The cause a six-bit cause number stands for.
    pub open spec fn spec_from_u8(v: u8) -> Option<Cause> {
        if v == 0 { Some(Cause::Unused) }
        else if v == 1 { Some(Cause::Periodic) }
        else if v == 2 { Some(Cause::Background) }
        else if v == 3 { Some(Cause::Spontaneous) }
        else if v == 4 { Some(Cause::Initialized) }
        else if v == 5 { Some(Cause::Request) }
        else if v == 6 { Some(Cause::Activation) }
        else if v == 7 { Some(Cause::ActivationCon) }
        else if v == 8 { Some(Cause::Deactivation) }
        else if v == 9 { Some(Cause::DeactivationCon) }
        else if v == 10 { Some(Cause::ActivationTerm) }
        else if v == 11 { Some(Cause::FileTransfer) }
        else if v == 12 { Some(Cause::ReturnInfoRemote) }
        else if v == 13 { Some(Cause::ReturnInfoLocal) }
        else if v == 14 { Some(Cause::Authentication) }
        else if v == 15 { Some(Cause::SessionKey) }
        else if v == 16 { Some(Cause::UserRoleAndUpdateKey) }
        else if v == 17 { Some(Cause::Reserved1) }
        else if v == 18 { Some(Cause::Reserved2) }
        else if v == 19 { Some(Cause::Reserved3) }
        else if v == 20 { Some(Cause::InterrogatedByStation) }
        else if v == 21 { Some(Cause::InterrogatedByGroup1) }
        else if v == 22 { Some(Cause::InterrogatedByGroup2) }
        else if v == 23 { Some(Cause::InterrogatedByGroup3) }
        else if v == 24 { Some(Cause::InterrogatedByGroup4) }
        else if v == 25 { Some(Cause::InterrogatedByGroup5) }
        else if v == 26 { Some(Cause::InterrogatedByGroup6) }
        else if v == 27 { Some(Cause::InterrogatedByGroup7) }
        else if v == 28 { Some(Cause::InterrogatedByGroup8) }
        else if v == 29 { Some(Cause::InterrogatedByGroup9) }
        else if v == 30 { Some(Cause::InterrogatedByGroup10) }
        else if v == 31 { Some(Cause::InterrogatedByGroup11) }
        else if v == 32 { Some(Cause::InterrogatedByGroup12) }
        else if v == 33 { Some(Cause::InterrogatedByGroup13) }
        else if v == 34 { Some(Cause::InterrogatedByGroup14) }
        else if v == 35 { Some(Cause::InterrogatedByGroup15) }
        else if v == 36 { Some(Cause::InterrogatedByGroup16) }
        else if v == 37 { Some(Cause::RequestByGeneralCounter) }
        else if v == 38 { Some(Cause::RequestByGroup1Counter) }
        else if v == 39 { Some(Cause::RequestByGroup2Counter) }
        else if v == 40 { Some(Cause::RequestByGroup3Counter) }
        else if v == 41 { Some(Cause::RequestByGroup4Counter) }
        else if v == 42 { Some(Cause::Reserved4) }
        else if v == 43 { Some(Cause::Reserved5) }
        else if v == 44 { Some(Cause::UnknownTypeID) }
        else if v == 45 { Some(Cause::UnknownCOT) }
        else if v == 46 { Some(Cause::UnknownCA) }
        else if v == 47 { Some(Cause::UnknownIOA) }
        else { None }
    }

    /// The six-bit cause number of this cause.
    #[verifier::when_used_as_spec(spec_u8)]
    pub fn to_u8(self) -> (r: u8)
        ensures
            r == self.spec_u8(),
    {
        match self {
            Cause::Unused => 0,
            Cause::Periodic => 1,
            Cause::Background => 2,
            Cause::Spontaneous => 3,
            Cause::Initialized => 4,
            Cause::Request => 5,
            Cause::Activation => 6,
            Cause::ActivationCon => 7,
            Cause::Deactivation => 8,
            Cause::DeactivationCon => 9,
            Cause::ActivationTerm => 10,
            Cause::FileTransfer => 11,
            Cause::ReturnInfoRemote => 12,
            Cause::ReturnInfoLocal => 13,
            Cause::Authentication => 14,
            Cause::SessionKey => 15,
            Cause::UserRoleAndUpdateKey => 16,
            Cause::Reserved1 => 17,
            Cause::Reserved2 => 18,
            Cause::Reserved3 => 19,
            Cause::InterrogatedByStation => 20,
            Cause::InterrogatedByGroup1 => 21,
            Cause::InterrogatedByGroup2 => 22,
            Cause::InterrogatedByGroup3 => 23,
            Cause::InterrogatedByGroup4 => 24,
            Cause::InterrogatedByGroup5 => 25,
            Cause::InterrogatedByGroup6 => 26,
            Cause::InterrogatedByGroup7 => 27,
            Cause::InterrogatedByGroup8 => 28,
            Cause::InterrogatedByGroup9 => 29,
            Cause::InterrogatedByGroup10 => 30,
            Cause::InterrogatedByGroup11 => 31,
            Cause::InterrogatedByGroup12 => 32,
            Cause::InterrogatedByGroup13 => 33,
            Cause::InterrogatedByGroup14 => 34,
            Cause::InterrogatedByGroup15 => 35,
            Cause::InterrogatedByGroup16 => 36,
            Cause::RequestByGeneralCounter => 37,
            Cause::RequestByGroup1Counter => 38,
            Cause::RequestByGroup2Counter => 39,
            Cause::RequestByGroup3Counter => 40,
            Cause::RequestByGroup4Counter => 41,
            Cause::Reserved4 => 42,
            Cause::Reserved5 => 43,
            Cause::UnknownTypeID => 44,
            Cause::UnknownCOT => 45,
            Cause::UnknownCA => 46,
            Cause::UnknownIOA => 47,
        }
    }

    /// Parse a six-bit cause number.
    pub fn try_from(v: u8) -> (r: Result<Cause, Error>)
        ensures
            match Cause::spec_from_u8(v) {
                Some(c) => r == Ok::<Cause, Error>(c),
                None => r == Err::<Cause, Error>(Error::ErrInvalidCause(v)),
            },
    {
        if v == 0 { Ok(Cause::Unused) }
        else if v == 1 { Ok(Cause::Periodic) }
        else if v == 2 { Ok(Cause::Background) }
        else if v == 3 { Ok(Cause::Spontaneous) }
        else if v == 4 { Ok(Cause::Initialized) }
        else if v == 5 { Ok(Cause::Request) }
        else if v == 6 { Ok(Cause::Activation) }
        else if v == 7 { Ok(Cause::ActivationCon) }
        else if v == 8 { Ok(Cause::Deactivation) }
        else if v == 9 { Ok(Cause::DeactivationCon) }
        else if v == 10 { Ok(Cause::ActivationTerm) }
        else if v == 11 { Ok(Cause::FileTransfer) }
        else if v == 12 { Ok(Cause::ReturnInfoRemote) }
        else if v == 13 { Ok(Cause::ReturnInfoLocal) }
        else if v == 14 { Ok(Cause::Authentication) }
        else if v == 15 { Ok(Cause::SessionKey) }
        else if v == 16 { Ok(Cause::UserRoleAndUpdateKey) }
        else if v == 17 { Ok(Cause::Reserved1) }
        else if v == 18 { Ok(Cause::Reserved2) }
        else if v == 19 { Ok(Cause::Reserved3) }
        else if v == 20 { Ok(Cause::InterrogatedByStation) }
        else if v == 21 { Ok(Cause::InterrogatedByGroup1) }
        else if v == 22 { Ok(Cause::InterrogatedByGroup2) }
        else if v == 23 { Ok(Cause::InterrogatedByGroup3) }
        else if v == 24 { Ok(Cause::InterrogatedByGroup4) }
        else if v == 25 { Ok(Cause::InterrogatedByGroup5) }
        else if v == 26 { Ok(Cause::InterrogatedByGroup6) }
        else if v == 27 { Ok(Cause::InterrogatedByGroup7) }
        else if v == 28 { Ok(Cause::InterrogatedByGroup8) }
        else if v == 29 { Ok(Cause::InterrogatedByGroup9) }
        else if v == 30 { Ok(Cause::InterrogatedByGroup10) }
        else if v == 31 { Ok(Cause::InterrogatedByGroup11) }
        else if v == 32 { Ok(Cause::InterrogatedByGroup12) }
        else if v == 33 { Ok(Cause::InterrogatedByGroup13) }
        else if v == 34 { Ok(Cause::InterrogatedByGroup14) }
        else if v == 35 { Ok(Cause::InterrogatedByGroup15) }
        else if v == 36 { Ok(Cause::InterrogatedByGroup16) }
        else if v == 37 { Ok(Cause::RequestByGeneralCounter) }
        else if v == 38 { Ok(Cause::RequestByGroup1Counter) }
        else if v == 39 { Ok(Cause::RequestByGroup2Counter) }
        else if v == 40 { Ok(Cause::RequestByGroup3Counter) }
        else if v == 41 { Ok(Cause::RequestByGroup4Counter) }
        else if v == 42 { Ok(Cause::Reserved4) }
        else if v == 43 { Ok(Cause::Reserved5) }
        else if v == 44 { Ok(Cause::UnknownTypeID) }
        else if v == 45 { Ok(Cause::UnknownCOT) }
        else if v == 46 { Ok(Cause::UnknownCA) }
        else if v == 47 { Ok(Cause::UnknownIOA) }
        else { Err(Error::ErrInvalidCause(v)) }
    }
}

/// Every cause decodes back from its own cause number.
pub proof fn lemma_cause_round_trip(c: Cause)
    ensures
        Cause::spec_from_u8(c.spec_u8()) == Some(c),
        c.spec_u8() <= 47,
{
}

/// Cause of transmission octet: test flag, positive/negative flag,
/// and the six-bit cause number.
#[derive(Debug, Clone, Copy, PartialEq, Eq, Structural)]
pub struct CauseOfTransmission {
    pub test: bool,
    pub positive: bool,
    pub cause: Cause,
}

/// The octet a cause of transmission writes on the wire: the test flag in
/// bit 7, the positive/negative flag in bit 6, the cause number below.
pub open spec fn spec_cot_raw(c: CauseOfTransmission) -> u8 {
    ((if c.test { 128u8 } else { 0u8 }) + (if c.positive { 64u8 } else { 0u8 })
        + c.cause.spec_u8()) as u8
}

/// The cause of transmission an octet stands for, unless its cause number
/// is unassigned.
pub open spec fn spec_cot_from(v: u8) -> Option<CauseOfTransmission> {
    match Cause::spec_from_u8(v % 64) {
        Some(cause) => Some(
            CauseOfTransmission { test: v / 128 == 1, positive: (v / 64) % 2 == 1, cause },
        ),
        None => None,
    }
}

impl CauseOfTransmission {
    pub fn new(test: bool, positive: bool, cause: Cause) -> (r: CauseOfTransmission)
        ensures
            r == (CauseOfTransmission { test, positive, cause }),
    {
        CauseOfTransmission { test, positive, cause }
    }

    /// Write the octet for this cause of transmission.
    pub fn raw(&self) -> (r: u8)
        ensures
            r == spec_cot_raw(*self),
    {
        let t: u8 = if self.test { 128 } else { 0 };
        let p: u8 = if self.positive { 64 } else { 0 };
        t + p + self.cause.to_u8()
    }

    /// Parse a cause-of-transmission octet.
    pub fn try_from(v: u8) -> (r: Result<CauseOfTransmission, Error>)
        ensures
            match spec_cot_from(v) {
                Some(c) => r == Ok::<CauseOfTransmission, Error>(c),
                None => r == Err::<CauseOfTransmission, Error>(Error::ErrInvalidCause(v % 64)),
            },
    {
        match Cause::try_from(v % 64) {
            Ok(cause) => Ok(
                CauseOfTransmission { test: v / 128 == 1, positive: (v / 64) % 2 == 1, cause },
            ),
            Err(e) => Err(e),
        }
    }
}

/// Every cause of transmission decodes back from its own octet.
pub proof fn lemma_cot_round_trip(c: CauseOfTransmission)
    ensures
        spec_cot_from(spec_cot_raw(c)) == Some(c),
{
    lemma_cause_round_trip(c.cause);
    let n = c.cause.spec_u8();
    if c.test {
        if c.positive {
            assert((128 + 64 + n) % 64 == n && (128 + 64 + n) / 128 == 1 && ((128 + 64 + n) / 64)
                % 2 == 1) by (nonlinear_arith)
                requires n <= 47,
            ;
        } else {
            assert((128 + n) % 64 == n && (128 + n) / 128 == 1 && ((128 + n) / 64) % 2 == 0)
                by (nonlinear_arith)
                requires n <= 47,
            ;
        }
    } else {
        if c.positive {
            assert((64 + n) % 64 == n && (64 + n) / 128 == 0 && ((64 + n) / 64) % 2 == 1)
                by (nonlinear_arith)
                requires n <= 47,
            ;
        } else {
            assert(n % 64 == n && n / 128 == 0 && (n / 64) % 2 == 0) by (nonlinear_arith)
                requires n <= 47,
            ;
        }
    }
}

/// Variable structure qualifier: the sequence flag and the count of
/// information objects or elements.
#[derive(Debug, Clone, Copy, PartialEq, Eq, Structural)]
pub struct VariableStruct {
    pub is_sequence: bool,
    pub number: u8,
}

/// The octet a variable structure qualifier writes: the sequence flag in
/// bit 7, the count below.
pub open spec fn spec_vs_raw(vs: VariableStruct) -> u8 {
    ((if vs.is_sequence { 128u8 } else { 0u8 }) + vs.number) as u8
}

/// The variable structure qualifier an octet stands for.
pub open spec fn spec_vs_from(v: u8) -> VariableStruct {
    VariableStruct { is_sequence: v / 128 == 1, number: (v % 128) as u8 }
}

impl VariableStruct {
    /// The count fits the seven bits reserved for it.
    pub open spec fn wf(self) -> bool {
        self.number <= 127
    }

    pub fn new(is_sequence: bool, number: u8) -> (r: VariableStruct)
        ensures
            r == (VariableStruct { is_sequence, number }),
    {
        VariableStruct { is_sequence, number }
    }

    /// Write the octet for this qualifier.
    pub fn raw(&self) -> (r: u8)
        requires
            self.wf(),
        ensures
            r == spec_vs_raw(*self),
    {
        let s: u8 = if self.is_sequence { 128 } else { 0 };
        s + self.number
    }

    /// Parse a variable-structure octet; every octet is a valid qualifier.
    pub fn from_raw(v: u8) -> (r: VariableStruct)
        ensures
            r == spec_vs_from(v),
            r.wf(),
    {
        VariableStruct { is_sequence: v / 128 == 1, number: v % 128 }
    }
}

/// Every well-formed variable structure qualifier decodes back from its octet.
pub proof fn lemma_vs_round_trip(vs: VariableStruct)
    requires
        vs.wf(),
    ensures
        spec_vs_from(spec_vs_raw(vs)) == vs,
{
}

/// Information object address: 16 valid bits and a reserved high octet.
#[derive(Debug, Clone, Copy, PartialEq, Eq, Structural)]
pub struct InfoObjAddr {
    /// Reserved, normally zero.
    pub res: u8,
    /// The address proper.
    pub addr: u16,
}

impl InfoObjAddr {
    pub fn new(res: u8, addr: u16) -> (r: InfoObjAddr)
        ensures
            r == (InfoObjAddr { res, addr }),
    {
        InfoObjAddr { res, addr }
    }

    /// The 24-bit value of this address.
    pub open spec fn spec_raw(self) -> u32 {
        (self.res as u32 * 0x10000 + self.addr as u32) as u32
    }

    /// The 24-bit value of this address.
    pub fn raw(&self) -> (r: u32)
        ensures
            r == self.spec_raw(),
            r < 0x1000000,
    {
        self.res as u32 * 0x10000 + self.addr as u32
    }
}

/// The three little-endian octets of an information object address.
pub open spec fn spec_ioa_bytes(ioa: InfoObjAddr) -> Seq<u8> {
    seq![(ioa.addr % 256) as u8, (ioa.addr / 256) as u8, ioa.res]
}

/// The information object address three octets stand for.
pub open spec fn spec_ioa_from(b0: u8, b1: u8, b2: u8) -> InfoObjAddr {
    InfoObjAddr { res: b2, addr: (b0 + b1 * 256) as u16 }
}

/// Every information object address decodes back from its three octets.
pub proof fn lemma_ioa_round_trip(ioa: InfoObjAddr)
    ensures
        spec_ioa_from(
            spec_ioa_bytes(ioa)[0],
            spec_ioa_bytes(ioa)[1],
            spec_ioa_bytes(ioa)[2],
        ) == ioa,
{
}

/// The data-unit identifier: the first six bytes of every ASDU.
#[derive(Debug, Clone, Copy, PartialEq, Eq, Structural)]
pub struct Identifier {
    pub type_id: TypeID,
    pub variable_struct: VariableStruct,
    pub cot: CauseOfTransmission,
    pub orig_addr: OriginAddr,
    pub common_addr: CommonAddr,
}

impl Identifier {
    pub open spec fn wf(self) -> bool {
        self.variable_struct.wf()
    }
}

/// The six identifier octets: type, variable structure, cause, origin
/// address, and the common address in little-endian order.
pub open spec fn spec_identifier_bytes(id: Identifier) -> Seq<u8> {
    seq![
        id.type_id.spec_u8(),
        spec_vs_raw(id.variable_struct),
        spec_cot_raw(id.cot),
        id.orig_addr,
        (id.common_addr % 256) as u8,
        (id.common_addr / 256) as u8,
    ]
}

/// The identifier six octets stand for, unless the type or cause octet
/// is unassigned.
pub open spec fn spec_identifier_from(b: Seq<u8>) -> Option<Identifier>
    recommends
        b.len() >= 6,
{
    match TypeID::spec_from_u8(b[0]) {
        Some(type_id) => match spec_cot_from(b[2]) {
            Some(cot) => Some(
                Identifier {
                    type_id,
                    variable_struct: spec_vs_from(b[1]),
                    cot,
                    orig_addr: b[3],
                    common_addr: (b[4] + b[5] * 256) as u16,
                },
            ),
            None => None,
        },
        None => None,
    }
}

/// An ASDU: its identifier, parsed eagerly, over the raw bytes of its
/// information objects, decoded on demand by the typed accessors.
#[derive(Debug, Clone)]
pub struct Asdu {
    pub identifier: Identifier,
    pub raw: Vec<u8>,
}

impl Asdu {
    /// A well-formed ASDU fits one APDU and keeps its count in seven bits.
    pub open spec fn wf(self) -> bool {
        &&& self.identifier.wf()
        &&& self.raw@.len() <= ASDU_BODY_SIZE_MAX
    }

    /// The same ASDU with the cause of transmission replaced: the shape of
    /// a mirrored (negative) reply.
    pub fn mirror(&self, cause: Cause) -> (r: Asdu)
        ensures
            r.identifier == (Identifier {
                cot: CauseOfTransmission { cause, ..self.identifier.cot },
                ..self.identifier
            }),
            r.raw@ == self.raw@,
            self.wf() ==> r.wf(),
    {
        let raw = clone_bytes(&self.raw);
        Asdu {
            identifier: Identifier {
                type_id: self.identifier.type_id,
                variable_struct: self.identifier.variable_struct,
                cot: CauseOfTransmission {
                    test: self.identifier.cot.test,
                    positive: self.identifier.cot.positive,
                    cause,
                },
                orig_addr: self.identifier.orig_addr,
                common_addr: self.identifier.common_addr,
            },
            raw,
        }
    }

    /// Serialize: the six identifier octets followed by the raw body.
    pub fn to_bytes(&self) -> (r: Vec<u8>)
        requires
            self.identifier.wf(),
        ensures
            r@ == spec_identifier_bytes(self.identifier) + self.raw@,
            r@.len() == 6 + self.raw@.len(),
    {
        let mut buf: Vec<u8> = Vec::new();
        buf.push(self.identifier.type_id.to_u8());
        buf.push(self.identifier.variable_struct.raw());
        buf.push(self.identifier.cot.raw());
        buf.push(self.identifier.orig_addr);
        buf.push((self.identifier.common_addr % 256) as u8);
        buf.push((self.identifier.common_addr / 256) as u8);
        let mut i: usize = 0;
        while i < self.raw.len()
            invariant
                i <= self.raw@.len(),
                buf@ == spec_identifier_bytes(self.identifier) + self.raw@.take(i as int),
            decreases self.raw@.len() - i,
        {
            buf.push(self.raw[i]);
            i = i + 1;
            proof {
                assert(self.raw@.take(i as int) == self.raw@.take(i - 1).push(self.raw@[i - 1]));
            }
        }
        proof {
            assert(self.raw@.take(self.raw@.len() as int) == self.raw@);
        }
        buf
    }

    /// Parse the identifier of an ASDU, keeping the rest as the raw body.
    pub fn from_bytes(bytes: Vec<u8>) -> (r: Result<Asdu, Error>)
        ensures
            match r {
                Ok(a) => {
                    &&& bytes@.len() >= 6
                    &&& spec_identifier_from(bytes@) == Some(a.identifier)
                    &&& a.raw@ == bytes@.skip(6)
                },
                Err(e) => {
                    ||| (bytes@.len() < 6 && e == Error::ErrAsduTooShort)
                    ||| (bytes@.len() >= 6 && TypeID::spec_from_u8(bytes@[0]) is None && e
                        == Error::ErrUnknownTypeID(bytes@[0]))
                    ||| (bytes@.len() >= 6 && TypeID::spec_from_u8(bytes@[0]) is Some
                        && spec_cot_from(bytes@[2]) is None && e == Error::ErrInvalidCause(
                        bytes@[2] % 64,
                    ))
                },
            },
            r is Ok <==> (bytes@.len() >= 6 && spec_identifier_from(bytes@) is Some),
    {
        if bytes.len() < 6 {
            return Err(Error::ErrAsduTooShort);
        }
        let type_id = match TypeID::try_from(bytes[0]) {
            Ok(t) => t,
            Err(e) => { return Err(e); },
        };
        let variable_struct = VariableStruct::from_raw(bytes[1]);
        let cot = match CauseOfTransmission::try_from(bytes[2]) {
            Ok(c) => c,
            Err(e) => { return Err(e); },
        };
        let orig_addr = bytes[3];
        let common_addr: u16 = bytes[4] as u16 + bytes[5] as u16 * 256;
        let mut bytes = bytes;
        let raw = bytes.split_off(6);
        Ok(Asdu {
            identifier: Identifier { type_id, variable_struct, cot, orig_addr, common_addr },
            raw,
        })
    }
}

/// Copy a byte vector.
pub fn clone_bytes(src: &Vec<u8>) -> (r: Vec<u8>)
    ensures
        r@ == src@,
{
    let mut r: Vec<u8> = Vec::new();
    let mut i: usize = 0;
    while i < src.len()
        invariant
            i <= src@.len(),
            r@ == src@.take(i as int),
        decreases src@.len() - i,
    {
        r.push(src[i]);
        i = i + 1;
        proof {
            assert(src@.take(i as int) == src@.take(i - 1).push(src@[i - 1]));
        }
    }
    proof {
        assert(src@.take(src@.len() as int) == src@);
    }
    r
}

/// A well-formed ASDU decodes back from its own bytes: the identifier and
/// the raw body both survive the round trip.
pub proof fn lemma_asdu_round_trip(a: Asdu)
    requires
        a.identifier.wf(),
    ensures
        spec_identifier_from(spec_identifier_bytes(a.identifier) + a.raw@) == Some(a.identifier),
        (spec_identifier_bytes(a.identifier) + a.raw@).skip(6) == a.raw@,
{
    let b = spec_identifier_bytes(a.identifier) + a.raw@;
    lemma_type_id_round_trip(a.identifier.type_id);
    lemma_cot_round_trip(a.identifier.cot);
    lemma_vs_round_trip(a.identifier.variable_struct);
    assert(b[4] == a.identifier.common_addr % 256 && b[5] == a.identifier.common_addr / 256);
    assert(b[4] + b[5] * 256 == a.identifier.common_addr) by (nonlinear_arith)
        requires
            b[4] == a.identifier.common_addr % 256,
            b[5] == a.identifier.common_addr / 256,
    ;
    assert(b.skip(6) =~= a.raw@);
}

} // verus!

//! The country-code table: a fixed, immutable mapping from four-digit
//! legacy codes to ISO-3166 alpha-3 codes.
//!
//! The enumeration is keyed by the numeric value of the four-digit code.
//! It deliberately maps the two distinct codes 1101 and 1152 to the same
//! ISO code "KOR": the second entry covers a known data-quality defect in
//! the upstream source and is preserved on purpose.

use vstd::prelude::*;
use vstd::string::*;

verus! {

pub open spec fn is_digit(c: char) -> bool {
    48 <= c as u32 <= 57
}

/// The numeric value of a code made of exactly four decimal digits, or -1
/// for any other sequence.
pub open spec fn code_num(s: Seq<char>) -> int {
    if s.len() == 4 && is_digit(s[0]) && is_digit(s[1]) && is_digit(s[2]) && is_digit(s[3]) {
        (s[0] as int - 48) * 1000 + (s[1] as int - 48) * 100 + (s[2] as int - 48) * 10
            + (s[3] as int - 48)
    } else {
        -1
    }
}

/// An executable lookup result agrees with the table entry.
pub open spec fn same_code(r: Option<String>, o: Option<Seq<char>>) -> bool {
    match (r, o) {
        (Option::Some(a), Option::Some(b)) => a@ == b,
        (Option::None, Option::None) => true,
        _ => false,
    }
}

pub open spec fn iso_entries_0(n: int) -> Option<Seq<char>> {
    if n == 0 {
        Some("USA"@)
    } else if n == 1 {
        Some("CAN"@)
    } else if n == 1000 {
        Some("AFG"@)
    } else if n == 1001 {
        Some("ALB"@)
    } else if n == 1002 {
        Some("DZA"@)
    } else if n == 1003 {
        Some("AND"@)
    } else if n == 1004 {
        Some("AGO"@)
    } else if n == 1005 {
        Some("ARG"@)
    } else if n == 1006 {
        Some("ASI"@)
    } else if n == 1007 {
        Some("AUS"@)
    } else if n == 1008 {
        Some("AUT"@)
    } else if n == 1009 {
        Some("AZR"@)
    } else if n == 1010 {
        Some("BHS"@)
    } else if n == 1011 {
        Some("BHR"@)
    } else if n == 1012 {
        Some("BGD"@)
    } else if n == 1013 {
        Some("BRB"@)
    } else if n == 1014 {
        Some("BEL"@)
    } else if n == 1015 {
        Some("BLZ"@)
    } else if n == 1016 {
        Some("BEN"@)
    } else if n == 1017 {
        Some("BMU"@)
    } else if n == 1018 {
        Some("BTN"@)
    } else if n == 1019 {
        Some("BOL"@)
    } else if n == 1021 {
        Some("BWA"@)
    } else if n == 1022 {
        Some("BRA"@)
    } else if n == 1024 {
        Some("BRN"@)
    } else if n == 1025 {
        Some("BGR"@)
    } else if n == 1026 {
        Some("MMR"@)
    } else if n == 1027 {
        Some("BDI"@)
    } else if n == 1028 {
        Some("KHM"@)
    } else if n == 1029 {
        Some("CMR"@)
    } else if n == 1030 {
        Some("CNI"@)
    } else if n == 1032 {
        Some("CPV"@)
    } else if n == 1034 {
        Some("CYM"@)
    } else if n == 1035 {
        Some("CAF"@)
    } else if n == 1036 {
        Some("TCD"@)
    } else if n == 1037 {
        Some("CHI"@)
    } else if n == 1038 {
        Some("CHL"@)
    } else if n == 1039 {
        Some("CHN"@)
    } else if n == 1040 {
        Some("COL"@)
    } else if n == 1041 {
        Some("COM"@)
    } else {
        None
    }
}

pub open spec fn iso_entries_1(n: int) -> Option<Seq<char>> {
    if n == 1042 {
        Some("COG"@)
    } else if n == 1044 {
        Some("CRI"@)
    } else if n == 1046 {
        Some("CYP"@)
    } else if n == 1047 {
        Some("CZE"@)
    } else if n == 1048 {
        Some("DNK"@)
    } else if n == 1049 {
        Some("DJI"@)
    } else if n == 1050 {
        Some("DMA"@)
    } else if n == 1051 {
        Some("DOM"@)
    } else if n == 1052 {
        Some("TLS"@)
    } else if n == 1053 {
        Some("ECU"@)
    } else if n == 1054 {
        Some("EGY"@)
    } else if n == 1055 {
        Some("SLV"@)
    } else if n == 1056 {
        Some("GNQ"@)
    } else if n == 1057 {
        Some("EST"@)
    } else if n == 1058 {
        Some("ETH"@)
    } else if n == 1059 {
        Some("FRO"@)
    } else if n == 1061 {
        Some("FJI"@)
    } else if n == 1062 {
        Some("FIN"@)
    } else if n == 1063 {
        Some("FRA"@)
    } else if n == 1064 {
        Some("GUF"@)
    } else if n == 1065 {
        Some("PYF"@)
    } else if n == 1066 {
        Some("GAB"@)
    } else if n == 1067 {
        Some("GMB"@)
    } else if n == 1068 {
        Some("DEU"@)
    } else if n == 1070 {
        Some("GHA"@)
    } else if n == 1071 {
        Some("GIB"@)
    } else if n == 1072 {
        Some("GBR"@)
    } else if n == 1073 {
        Some("GRC"@)
    } else if n == 1074 {
        Some("GRL"@)
    } else if n == 1075 {
        Some("GRD"@)
    } else if n == 1076 {
        Some("GLP"@)
    } else if n == 1078 {
        Some("GTM"@)
    } else if n == 1079 {
        Some("GIN"@)
    } else if n == 1080 {
        Some("GNB"@)
    } else if n == 1081 {
        Some("GUY"@)
    } else if n == 1082 {
        Some("HTI"@)
    } else if n == 1083 {
        Some("HND"@)
    } else if n == 1084 {
        Some("HKG"@)
    } else if n == 1085 {
        Some("HUN"@)
    } else if n == 1086 {
        Some("ISL"@)
    } else {
        None
    }
}

pub open spec fn iso_entries_2(n: int) -> Option<Seq<char>> {
    if n == 1087 {
        Some("IND"@)
    } else if n == 1088 {
        Some("IDN"@)
    } else if n == 1091 {
        Some("IRL"@)
    } else if n == 1092 {
        Some("ISR"@)
    } else if n == 1093 {
        Some("ITA"@)
    } else if n == 1094 {
        Some("CIV"@)
    } else if n == 1095 {
        Some("JAM"@)
    } else if n == 1096 {
        Some("JPN"@)
    } else if n == 1097 {
        Some("JOR"@)
    } else if n == 1099 {
        Some("KEN"@)
    } else if n == 1100 {
        Some("KIR"@)
    } else if n == 1101 {
        Some("KOR"@)
    } else if n == 1102 {
        Some("KWT"@)
    } else if n == 1103 {
        Some("LAO"@)
    } else if n == 1104 {
        Some("LVA"@)
    } else if n == 1105 {
        Some("LBN"@)
    } else if n == 1107 {
        Some("LSO"@)
    } else if n == 1108 {
        Some("LBR"@)
    } else if n == 1109 {
        Some("LBY"@)
    } else if n == 1110 {
        Some("LIE"@)
    } else if n == 1111 {
        Some("LTU"@)
    } else if n == 1112 {
        Some("LUX"@)
    } else if n == 1113 {
        Some("MAC"@)
    } else if n == 1114 {
        Some("MDG"@)
    } else if n == 1115 {
        Some("MAD"@)
    } else if n == 1116 {
        Some("MWI"@)
    } else if n == 1117 {
        Some("MYS"@)
    } else if n == 1118 {
        Some("MDV"@)
    } else if n == 1119 {
        Some("MLI"@)
    } else if n == 1120 {
        Some("MLT"@)
    } else if n == 1121 {
        Some("MTQ"@)
    } else if n == 1122 {
        Some("MRT"@)
    } else if n == 1123 {
        Some("MUS"@)
    } else if n == 1124 {
        Some("MEX"@)
    } else if n == 1125 {
        Some("MCO"@)
    } else if n == 1126 {
        Some("MNG"@)
    } else if n == 1127 {
        Some("MAR"@)
    } else if n == 1128 {
        Some("MOZ"@)
    } else if n == 1129 {
        Some("NAM"@)
    } else if n == 1130 {
        Some("NAU"@)
    } else {
        None
    }
}

pub open spec fn iso_entries_3(n: int) -> Option<Seq<char>> {
    if n == 1131 {
        Some("NPL"@)
    } else if n == 1132 {
        Some("NLD"@)
    } else if n == 1133 {
        Some("ANT"@)
    } else if n == 1134 {
        Some("NCL"@)
    } else if n == 1135 {
        Some("NZL"@)
    } else if n == 1136 {
        Some("NIC"@)
    } else if n == 1137 {
        Some("NER"@)
    } else if n == 1138 {
        Some("NGA"@)
    } else if n == 1139 {
        Some("NID"@)
    } else if n == 1140 {
        Some("NOR"@)
    } else if n == 1141 {
        Some("OMN"@)
    } else if n == 1142 {
        Some("PAK"@)
    } else if n == 1143 {
        Some("PAN"@)
    } else if n == 1144 {
        Some("PNG"@)
    } else if n == 1145 {
        Some("PRY"@)
    } else if n == 1146 {
        Some("PER"@)
    } else if n == 1147 {
        Some("PHL"@)
    } else if n == 1148 {
        Some("PIT"@)
    } else if n == 1149 {
        Some("POL"@)
    } else if n == 1150 {
        Some("PRT"@)
    } else if n == 1151 {
        Some("QAT"@)
    } else if n == 1152 {
        Some("KOR"@)
    } else if n == 1153 {
        Some("REU"@)
    } else if n == 1155 {
        Some("ROU"@)
    } else if n == 1156 {
        Some("RWA"@)
    } else if n == 1157 {
        Some("SHN"@)
    } else if n == 1158 {
        Some("LCA"@)
    } else if n == 1161 {
        Some("STP"@)
    } else if n == 1162 {
        Some("SAU"@)
    } else if n == 1163 {
        Some("SCT"@)
    } else if n == 1164 {
        Some("SEN"@)
    } else if n == 1165 {
        Some("SYC"@)
    } else if n == 1166 {
        Some("SLE"@)
    } else if n == 1167 {
        Some("SGP"@)
    } else if n == 1168 {
        Some("SLB"@)
    } else if n == 1171 {
        Some("ZAF"@)
    } else if n == 1172 {
        Some("ESP"@)
    } else if n == 1173 {
        Some("LKA"@)
    } else if n == 1174 {
        Some("VCT"@)
    } else if n == 1175 {
        Some("SDN"@)
    } else {
        None
    }
}

pub open spec fn iso_entries_4(n: int) -> Option<Seq<char>> {
    if n == 1176 {
        Some("SUR"@)
    } else if n == 1177 {
        Some("SWZ"@)
    } else if n == 1178 {
        Some("SWE"@)
    } else if n == 1179 {
        Some("CHE"@)
    } else if n == 1181 {
        Some("TWN"@)
    } else if n == 1182 {
        Some("TZA"@)
    } else if n == 1183 {
        Some("THA"@)
    } else if n == 1184 {
        Some("TGO"@)
    } else if n == 1185 {
        Some("TON"@)
    } else if n == 1186 {
        Some("TTO"@)
    } else if n == 1187 {
        Some("TDC"@)
    } else if n == 1188 {
        Some("TUN"@)
    } else if n == 1189 {
        Some("TUR"@)
    } else if n == 1190 {
        Some("TCA"@)
    } else if n == 1191 {
        Some("TUV"@)
    } else if n == 1192 {
        Some("UGA"@)
    } else if n == 1193 {
        Some("RUS"@)
    } else if n == 1194 {
        Some("ARE"@)
    } else if n == 1195 {
        Some("BFA"@)
    } else if n == 1196 {
        Some("URY"@)
    } else if n == 1197 {
        Some("VUT"@)
    } else if n == 1198 {
        Some("VTC"@)
    } else if n == 1199 {
        Some("VEN"@)
    } else if n == 1200 {
        Some("VNM"@)
    } else if n == 1202 {
        Some("WLS"@)
    } else if n == 1203 {
        Some("WSM"@)
    } else if n == 1204 {
        Some("YEM"@)
    } else if n == 1206 {
        Some("BIH"@)
    } else if n == 1207 {
        Some("ZAI"@)
    } else if n == 1208 {
        Some("ZMB"@)
    } else if n == 1209 {
        Some("ZWE"@)
    } else if n == 1210 {
        Some("SVN"@)
    } else if n == 1213 {
        Some("AIA"@)
    } else if n == 1214 {
        Some("ATG"@)
    } else if n == 1215 {
        Some("ARM"@)
    } else if n == 1216 {
        Some("ABW"@)
    } else if n == 1217 {
        Some("AZE"@)
    } else if n == 1218 {
        Some("BLR"@)
    } else if n == 1219 {
        Some("VGB"@)
    } else if n == 1222 {
        Some("COK"@)
    } else {
        None
    }
}

pub open spec fn iso_entries_5(n: int) -> Option<Seq<char>> {
    if n == 1223 {
        Some("HRV"@)
    } else if n == 1225 {
        Some("GEO"@)
    } else if n == 1226 {
        Some("KAZ"@)
    } else if n == 1227 {
        Some("KGZ"@)
    } else if n == 1228 {
        Some("MKD"@)
    } else if n == 1231 {
        Some("MDA"@)
    } else if n == 1232 {
        Some("MNE"@)
    } else if n == 1233 {
        Some("MSR"@)
    } else if n == 1235 {
        Some("PLW"@)
    } else if n == 1238 {
        Some("SAB"@)
    } else if n == 1240 {
        Some("KNA"@)
    } else if n == 1241 {
        Some("SMR"@)
    } else if n == 1243 {
        Some("SRB"@)
    } else if n == 1245 {
        Some("SVK"@)
    } else if n == 1246 {
        Some("TJK"@)
    } else if n == 1247 {
        Some("TKM"@)
    } else if n == 1248 {
        Some("UKR"@)
    } else if n == 1250 {
        Some("UZB"@)
    } else if n == 1251 {
        Some("IMN"@)
    } else {
        None
    }
}

/// The fixed enumeration of known code-to-ISO-alpha-3 mappings, keyed by the
/// numeric value of the four-digit code. Codes absent from the enumeration
/// have no entry.
pub open spec fn iso_of(n: int) -> Option<Seq<char>> {
    if n < 1042 {
        iso_entries_0(n)
    } else if n < 1087 {
        iso_entries_1(n)
    } else if n < 1131 {
        iso_entries_2(n)
    } else if n < 1176 {
        iso_entries_3(n)
    } else if n < 1223 {
        iso_entries_4(n)
    } else {
        iso_entries_5(n)
    }
}

fn iso_entries_exec_0(n: u32) -> (r: Option<String>)
    ensures
        same_code(r, iso_entries_0(n as int)),
{
    if n == 0 {
        Some("USA".to_owned())
    } else if n == 1 {
        Some("CAN".to_owned())
    } else if n == 1000 {
        Some("AFG".to_owned())
    } else if n == 1001 {
        Some("ALB".to_owned())
    } else if n == 1002 {
        Some("DZA".to_owned())
    } else if n == 1003 {
        Some("AND".to_owned())
    } else if n == 1004 {
        Some("AGO".to_owned())
    } else if n == 1005 {
        Some("ARG".to_owned())
    } else if n == 1006 {
        Some("ASI".to_owned())
    } else if n == 1007 {
        Some("AUS".to_owned())
    } else if n == 1008 {
        Some("AUT".to_owned())
    } else if n == 1009 {
        Some("AZR".to_owned())
    } else if n == 1010 {
        Some("BHS".to_owned())
    } else if n == 1011 {
        Some("BHR".to_owned())
    } else if n == 1012 {
        Some("BGD".to_owned())
    } else if n == 1013 {
        Some("BRB".to_owned())
    } else if n == 1014 {
        Some("BEL".to_owned())
    } else if n == 1015 {
        Some("BLZ".to_owned())
    } else if n == 1016 {
        Some("BEN".to_owned())
    } else if n == 1017 {
        Some("BMU".to_owned())
    } else if n == 1018 {
        Some("BTN".to_owned())
    } else if n == 1019 {
        Some("BOL".to_owned())
    } else if n == 1021 {
        Some("BWA".to_owned())
    } else if n == 1022 {
        Some("BRA".to_owned())
    } else if n == 1024 {
        Some("BRN".to_owned())
    } else if n == 1025 {
        Some("BGR".to_owned())
    } else if n == 1026 {
        Some("MMR".to_owned())
    } else if n == 1027 {
        Some("BDI".to_owned())
    } else if n == 1028 {
        Some("KHM".to_owned())
    } else if n == 1029 {
        Some("CMR".to_owned())
    } else if n == 1030 {
        Some("CNI".to_owned())
    } else if n == 1032 {
        Some("CPV".to_owned())
    } else if n == 1034 {
        Some("CYM".to_owned())
    } else if n == 1035 {
        Some("CAF".to_owned())
    } else if n == 1036 {
        Some("TCD".to_owned())
    } else if n == 1037 {
        Some("CHI".to_owned())
    } else if n == 1038 {
        Some("CHL".to_owned())
    } else if n == 1039 {
        Some("CHN".to_owned())
    } else if n == 1040 {
        Some("COL".to_owned())
    } else if n == 1041 {
        Some("COM".to_owned())
    } else {
        None
    }
}

fn iso_entries_exec_1(n: u32) -> (r: Option<String>)
    ensures
        same_code(r, iso_entries_1(n as int)),
{
    if n == 1042 {
        Some("COG".to_owned())
    } else if n == 1044 {
        Some("CRI".to_owned())
    } else if n == 1046 {
        Some("CYP".to_owned())
    } else if n == 1047 {
        Some("CZE".to_owned())
    } else if n == 1048 {
        Some("DNK".to_owned())
    } else if n == 1049 {
        Some("DJI".to_owned())
    } else if n == 1050 {
        Some("DMA".to_owned())
    } else if n == 1051 {
        Some("DOM".to_owned())
    } else if n == 1052 {
        Some("TLS".to_owned())
    } else if n == 1053 {
        Some("ECU".to_owned())
    } else if n == 1054 {
        Some("EGY".to_owned())
    } else if n == 1055 {
        Some("SLV".to_owned())
    } else if n == 1056 {
        Some("GNQ".to_owned())
    } else if n == 1057 {
        Some("EST".to_owned())
    } else if n == 1058 {
        Some("ETH".to_owned())
    } else if n == 1059 {
        Some("FRO".to_owned())
    } else if n == 1061 {
        Some("FJI".to_owned())
    } else if n == 1062 {
        Some("FIN".to_owned())
    } else if n == 1063 {
        Some("FRA".to_owned())
    } else if n == 1064 {
        Some("GUF".to_owned())
    } else if n == 1065 {
        Some("PYF".to_owned())
    } else if n == 1066 {
        Some("GAB".to_owned())
    } else if n == 1067 {
        Some("GMB".to_owned())
    } else if n == 1068 {
        Some("DEU".to_owned())
    } else if n == 1070 {
        Some("GHA".to_owned())
    } else if n == 1071 {
        Some("GIB".to_owned())
    } else if n == 1072 {
        Some("GBR".to_owned())
    } else if n == 1073 {
        Some("GRC".to_owned())
    } else if n == 1074 {
        Some("GRL".to_owned())
    } else if n == 1075 {
        Some("GRD".to_owned())
    } else if n == 1076 {
        Some("GLP".to_owned())
    } else if n == 1078 {
        Some("GTM".to_owned())
    } else if n == 1079 {
        Some("GIN".to_owned())
    } else if n == 1080 {
        Some("GNB".to_owned())
    } else if n == 1081 {
        Some("GUY".to_owned())
    } else if n == 1082 {
        Some("HTI".to_owned())
    } else if n == 1083 {
        Some("HND".to_owned())
    } else if n == 1084 {
        Some("HKG".to_owned())
    } else if n == 1085 {
        Some("HUN".to_owned())
    } else if n == 1086 {
        Some("ISL".to_owned())
    } else {
        None
    }
}

fn iso_entries_exec_2(n: u32) -> (r: Option<String>)
    ensures
        same_code(r, iso_entries_2(n as int)),
{
    if n == 1087 {
        Some("IND".to_owned())
    } else if n == 1088 {
        Some("IDN".to_owned())
    } else if n == 1091 {
        Some("IRL".to_owned())
    } else if n == 1092 {
        Some("ISR".to_owned())
    } else if n == 1093 {
        Some("ITA".to_owned())
    } else if n == 1094 {
        Some("CIV".to_owned())
    } else if n == 1095 {
        Some("JAM".to_owned())
    } else if n == 1096 {
        Some("JPN".to_owned())
    } else if n == 1097 {
        Some("JOR".to_owned())
    } else if n == 1099 {
        Some("KEN".to_owned())
    } else if n == 1100 {
        Some("KIR".to_owned())
    } else if n == 1101 {
        Some("KOR".to_owned())
    } else if n == 1102 {
        Some("KWT".to_owned())
    } else if n == 1103 {
        Some("LAO".to_owned())
    } else if n == 1104 {
        Some("LVA".to_owned())
    } else if n == 1105 {
        Some("LBN".to_owned())
    } else if n == 1107 {
        Some("LSO".to_owned())
    } else if n == 1108 {
        Some("LBR".to_owned())
    } else if n == 1109 {
        Some("LBY".to_owned())
    } else if n == 1110 {
        Some("LIE".to_owned())
    } else if n == 1111 {
        Some("LTU".to_owned())
    } else if n == 1112 {
        Some("LUX".to_owned())
    } else if n == 1113 {
        Some("MAC".to_owned())
    } else if n == 1114 {
        Some("MDG".to_owned())
    } else if n == 1115 {
        Some("MAD".to_owned())
    } else if n == 1116 {
        Some("MWI".to_owned())
    } else if n == 1117 {
        Some("MYS".to_owned())
    } else if n == 1118 {
        Some("MDV".to_owned())
    } else if n == 1119 {
        Some("MLI".to_owned())
    } else if n == 1120 {
        Some("MLT".to_owned())
    } else if n == 1121 {
        Some("MTQ".to_owned())
    } else if n == 1122 {
        Some("MRT".to_owned())
    } else if n == 1123 {
        Some("MUS".to_owned())
    } else if n == 1124 {
        Some("MEX".to_owned())
    } else if n == 1125 {
        Some("MCO".to_owned())
    } else if n == 1126 {
        Some("MNG".to_owned())
    } else if n == 1127 {
        Some("MAR".to_owned())
    } else if n == 1128 {
        Some("MOZ".to_owned())
    } else if n == 1129 {
        Some("NAM".to_owned())
    } else if n == 1130 {
        Some("NAU".to_owned())
    } else {
        None
    }
}

fn iso_entries_exec_3(n: u32) -> (r: Option<String>)
    ensures
        same_code(r, iso_entries_3(n as int)),
{
    if n == 1131 {
        Some("NPL".to_owned())
    } else if n == 1132 {
        Some("NLD".to_owned())
    } else if n == 1133 {
        Some("ANT".to_owned())
    } else if n == 1134 {
        Some("NCL".to_owned())
    } else if n == 1135 {
        Some("NZL".to_owned())
    } else if n == 1136 {
        Some("NIC".to_owned())
    } else if n == 1137 {
        Some("NER".to_owned())
    } else if n == 1138 {
        Some("NGA".to_owned())
    } else if n == 1139 {
        Some("NID".to_owned())
    } else if n == 1140 {
        Some("NOR".to_owned())
    } else if n == 1141 {
        Some("OMN".to_owned())
    } else if n == 1142 {
        Some("PAK".to_owned())
    } else if n == 1143 {
        Some("PAN".to_owned())
    } else if n == 1144 {
        Some("PNG".to_owned())
    } else if n == 1145 {
        Some("PRY".to_owned())
    } else if n == 1146 {
        Some("PER".to_owned())
    } else if n == 1147 {
        Some("PHL".to_owned())
    } else if n == 1148 {
        Some("PIT".to_owned())
    } else if n == 1149 {
        Some("POL".to_owned())
    } else if n == 1150 {
        Some("PRT".to_owned())
    } else if n == 1151 {
        Some("QAT".to_owned())
    } else if n == 1152 {
        Some("KOR".to_owned())
    } else if n == 1153 {
        Some("REU".to_owned())
    } else if n == 1155 {
        Some("ROU".to_owned())
    } else if n == 1156 {
        Some("RWA".to_owned())
    } else if n == 1157 {
        Some("SHN".to_owned())
    } else if n == 1158 {
        Some("LCA".to_owned())
    } else if n == 1161 {
        Some("STP".to_owned())
    } else if n == 1162 {
        Some("SAU".to_owned())
    } else if n == 1163 {
        Some("SCT".to_owned())
    } else if n == 1164 {
        Some("SEN".to_owned())
    } else if n == 1165 {
        Some("SYC".to_owned())
    } else if n == 1166 {
        Some("SLE".to_owned())
    } else if n == 1167 {
        Some("SGP".to_owned())
    } else if n == 1168 {
        Some("SLB".to_owned())
    } else if n == 1171 {
        Some("ZAF".to_owned())
    } else if n == 1172 {
        Some("ESP".to_owned())
    } else if n == 1173 {
        Some("LKA".to_owned())
    } else if n == 1174 {
        Some("VCT".to_owned())
    } else if n == 1175 {
        Some("SDN".to_owned())
    } else {
        None
    }
}

fn iso_entries_exec_4(n: u32) -> (r: Option<String>)
    ensures
        same_code(r, iso_entries_4(n as int)),
{
    if n == 1176 {
        Some("SUR".to_owned())
    } else if n == 1177 {
        Some("SWZ".to_owned())
    } else if n == 1178 {
        Some("SWE".to_owned())
    } else if n == 1179 {
        Some("CHE".to_owned())
    } else if n == 1181 {
        Some("TWN".to_owned())
    } else if n == 1182 {
        Some("TZA".to_owned())
    } else if n == 1183 {
        Some("THA".to_owned())
    } else if n == 1184 {
        Some("TGO".to_owned())
    } else if n == 1185 {
        Some("TON".to_owned())
    } else if n == 1186 {
        Some("TTO".to_owned())
    } else if n == 1187 {
        Some("TDC".to_owned())
    } else if n == 1188 {
        Some("TUN".to_owned())
    } else if n == 1189 {
        Some("TUR".to_owned())
    } else if n == 1190 {
        Some("TCA".to_owned())
    } else if n == 1191 {
        Some("TUV".to_owned())
    } else if n == 1192 {
        Some("UGA".to_owned())
    } else if n == 1193 {
        Some("RUS".to_owned())
    } else if n == 1194 {
        Some("ARE".to_owned())
    } else if n == 1195 {
        Some("BFA".to_owned())
    } else if n == 1196 {
        Some("URY".to_owned())
    } else if n == 1197 {
        Some("VUT".to_owned())
    } else if n == 1198 {
        Some("VTC".to_owned())
    } else if n == 1199 {
        Some("VEN".to_owned())
    } else if n == 1200 {
        Some("VNM".to_owned())
    } else if n == 1202 {
        Some("WLS".to_owned())
    } else if n == 1203 {
        Some("WSM".to_owned())
    } else if n == 1204 {
        Some("YEM".to_owned())
    } else if n == 1206 {
        Some("BIH".to_owned())
    } else if n == 1207 {
        Some("ZAI".to_owned())
    } else if n == 1208 {
        Some("ZMB".to_owned())
    } else if n == 1209 {
        Some("ZWE".to_owned())
    } else if n == 1210 {
        Some("SVN".to_owned())
    } else if n == 1213 {
        Some("AIA".to_owned())
    } else if n == 1214 {
        Some("ATG".to_owned())
    } else if n == 1215 {
        Some("ARM".to_owned())
    } else if n == 1216 {
        Some("ABW".to_owned())
    } else if n == 1217 {
        Some("AZE".to_owned())
    } else if n == 1218 {
        Some("BLR".to_owned())
    } else if n == 1219 {
        Some("VGB".to_owned())
    } else if n == 1222 {
        Some("COK".to_owned())
    } else {
        None
    }
}

fn iso_entries_exec_5(n: u32) -> (r: Option<String>)
    ensures
        same_code(r, iso_entries_5(n as int)),
{
    if n == 1223 {
        Some("HRV".to_owned())
    } else if n == 1225 {
        Some("GEO".to_owned())
    } else if n == 1226 {
        Some("KAZ".to_owned())
    } else if n == 1227 {
        Some("KGZ".to_owned())
    } else if n == 1228 {
        Some("MKD".to_owned())
    } else if n == 1231 {
        Some("MDA".to_owned())
    } else if n == 1232 {
        Some("MNE".to_owned())
    } else if n == 1233 {
        Some("MSR".to_owned())
    } else if n == 1235 {
        Some("PLW".to_owned())
    } else if n == 1238 {
        Some("SAB".to_owned())
    } else if n == 1240 {
        Some("KNA".to_owned())
    } else if n == 1241 {
        Some("SMR".to_owned())
    } else if n == 1243 {
        Some("SRB".to_owned())
    } else if n == 1245 {
        Some("SVK".to_owned())
    } else if n == 1246 {
        Some("TJK".to_owned())
    } else if n == 1247 {
        Some("TKM".to_owned())
    } else if n == 1248 {
        Some("UKR".to_owned())
    } else if n == 1250 {
        Some("UZB".to_owned())
    } else if n == 1251 {
        Some("IMN".to_owned())
    } else {
        None
    }
}

fn iso_lookup(n: u32) -> (r: Option<String>)
    ensures
        same_code(r, iso_of(n as int)),
{
    if n < 1042 {
        iso_entries_exec_0(n)
    } else if n < 1087 {
        iso_entries_exec_1(n)
    } else if n < 1131 {
        iso_entries_exec_2(n)
    } else if n < 1176 {
        iso_entries_exec_3(n)
    } else if n < 1223 {
        iso_entries_exec_4(n)
    } else {
        iso_entries_exec_5(n)
    }
}

/// The table entry for a code, if any: only sequences of exactly four
/// decimal digits can match.
pub open spec fn table_lookup(code: Seq<char>) -> Option<Seq<char>> {
    iso_of(code_num(code))
}

/// The Translator mapping as a whole: four-digit codes to alpha-3 codes.
pub open spec fn translator_table() -> Map<Seq<char>, Seq<char>> {
    Map::new(
        |c: Seq<char>| table_lookup(c) is Some,
        |c: Seq<char>| match table_lookup(c) {
            Option::Some(v) => v,
            Option::None => Seq::empty(),
        },
    )
}

/// What `translate` returns: the table entry when the code has one, the
/// code itself otherwise.
pub open spec fn translate_spec(code: Seq<char>) -> Seq<char> {
    match table_lookup(code) {
        Option::Some(iso) => iso,
        Option::None => code,
    }
}

/// Translates a four-character country code into its ISO-3166 alpha-3
/// code; a code with no table entry is returned unchanged.
pub fn translate(code: &str) -> (r: String)
    ensures
        r@ == translate_spec(code@),
{
    let n = code.unicode_len();
    if n == 4 {
        let u0 = code.get_char(0) as u32;
        let u1 = code.get_char(1) as u32;
        let u2 = code.get_char(2) as u32;
        let u3 = code.get_char(3) as u32;
        if 48 <= u0 && u0 <= 57 && 48 <= u1 && u1 <= 57 && 48 <= u2 && u2 <= 57 && 48 <= u3
            && u3 <= 57 {
            let v: u32 = (u0 - 48) * 1000 + (u1 - 48) * 100 + (u2 - 48) * 10 + (u3 - 48);
            proof {
                assert(v as int == code_num(code@));
            }
            match iso_lookup(v) {
                Option::Some(iso) => {
                    return iso;
                },
                Option::None => {
                    return code.to_owned();
                },
            }
        }
    }
    code.to_owned()
}

/// A code shorter than four characters, left-padded with zeros to exactly
/// four; a longer code is kept as it is.
pub open spec fn zero_pad4(s: Seq<char>) -> Seq<char> {
    if s.len() >= 4 {
        s
    } else {
        Seq::new((4 - s.len()) as nat, |i: int| '0') + s
    }
}

/// Left-pads a raw country-code field with zeros to at least four
/// characters.
pub fn pad_code(code: &str) -> (r: String)
    ensures
        r@ == zero_pad4(code@),
{
    let n = code.unicode_len();
    if n >= 4 {
        return String::from_str(code);
    }
    let zeros: usize = 4 - n;
    let mut r = String::new();
    let mut i: usize = 0;
    proof {
        reveal_strlit("0");
        assert(r@ =~= Seq::new(0nat, |j: int| '0'));
    }
    while i < zeros
        invariant
            0 <= i <= zeros,
            r@ =~= Seq::new(i as nat, |j: int| '0'),
        decreases zeros - i,
    {
        r.append("0");
        i = i + 1;
        proof {
            reveal_strlit("0");
            assert(r@ =~= Seq::new(i as nat, |j: int| '0'));
        }
    }
    r.append(code);
    proof {
        assert(r@ =~= zero_pad4(code@));
    }
    r
}

/// The Translator: the handle to the fixed code table, built once and
/// read-only afterwards. Its view is the full mapping.
pub struct Translator {}

impl View for Translator {
    type V = Map<Seq<char>, Seq<char>>;

    open spec fn view(&self) -> Map<Seq<char>, Seq<char>> {
        translator_table()
    }
}

impl Translator {
    /// Translates a country code against this table.
    pub fn translate(&self, code: &str) -> (r: String)
        ensures
            r@ == translate_spec(code@),
    {
        translate(code)
    }
}

/// Builds the Translator over the fixed code table.
pub fn create_translator() -> (t: Translator)
    ensures
        t@ == translator_table(),
{
    Translator {  }
}

/// A code present in the Translator table translates to its table entry;
/// a code absent from the table translates to itself.
pub proof fn lemma_translate_table(code: Seq<char>)
    ensures
        translator_table().contains_key(code) ==> translate_spec(code)
            == translator_table()[code],
        !translator_table().contains_key(code) ==> translate_spec(code) == code,
{
}

/// Zero-padding pads short codes on the left to exactly four characters
/// and leaves codes of four or more characters unchanged.
pub proof fn lemma_zero_pad(s: Seq<char>)
    ensures
        s.len() >= 4 ==> zero_pad4(s) == s,
        s.len() < 4 ==> zero_pad4(s).len() == 4,
        s.len() < 4 ==> zero_pad4(s) == Seq::new((4 - s.len()) as nat, |i: int| '0') + s,
{
}

} // verus!
